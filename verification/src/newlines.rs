//! Line-ending normalization: the trailing-newline invariant, collapsing
//! carriage-return/line-feed pairs, expanding line feeds back out, and
//! resolving which ending a `NewLineKind` asks for on a given text.

use vstd::prelude::*;

use crate::settings::NewLineKind;
use vstd::string::StrSliceExecFns;

verus! {

/// Does the text end with a line feed?
pub open spec fn ends_with_lf(s: Seq<char>) -> bool {
    s.len() > 0 && s.last() == '\n'
}

/// The text with exactly one line feed appended when it does not already end
/// with one; the text unchanged when it does.
pub open spec fn with_trailing_lf(s: Seq<char>) -> Seq<char> {
    if ends_with_lf(s) {
        s
    } else {
        s.push('\n')
    }
}

/// The text with every carriage-return/line-feed pair collapsed to a bare
/// line feed, scanning from the front; a carriage return not followed by a
/// line feed is kept as it is.
pub open spec fn crlf_to_lf(s: Seq<char>) -> Seq<char>
    decreases s.len(),
{
    if s.len() == 0 {
        s
    } else if s.len() >= 2 && s[0] == '\r' && s[1] == '\n' {
        seq!['\n'] + crlf_to_lf(s.skip(2))
    } else {
        seq![s[0]] + crlf_to_lf(s.skip(1))
    }
}

/// The text with every line feed expanded to a carriage-return/line-feed pair.
pub open spec fn lf_to_crlf(s: Seq<char>) -> Seq<char>
    decreases s.len(),
{
    if s.len() == 0 {
        s
    } else if s[0] == '\n' {
        seq!['\r', '\n'] + lf_to_crlf(s.skip(1))
    } else {
        seq![s[0]] + lf_to_crlf(s.skip(1))
    }
}

/// Whether a text's own last line ending is a carriage-return/line-feed pair:
/// the last line feed in the text is inspected, and a text without any line
/// feed prefers bare line feeds.
pub open spec fn auto_prefers_crlf(s: Seq<char>) -> bool
    decreases s.len(),
{
    if s.len() == 0 {
        false
    } else if s.last() == '\n' {
        s.len() >= 2 && s[s.len() - 2] == '\r'
    } else {
        auto_prefers_crlf(s.drop_last())
    }
}

/// Whether the resolved target ending for this text and kind is the bare line
/// feed. `Auto` and `System` inspect the text; the explicit kinds are fixed.
pub open spec fn target_is_lf(s: Seq<char>, kind: NewLineKind) -> bool {
    match kind {
        NewLineKind::LineFeed => true,
        NewLineKind::CarriageReturnLineFeed => false,
        NewLineKind::Auto => !auto_prefers_crlf(s),
        NewLineKind::System => !auto_prefers_crlf(s),
    }
}

/// The full normalization applied to the formatter's output: first the
/// trailing-newline invariant, then the two-phase line-ending rewrite (always
/// collapse to bare line feeds; expand again only when the resolved target is
/// the carriage-return/line-feed pair).
pub open spec fn normalized_text(s: Seq<char>, kind: NewLineKind) -> Seq<char> {
    let t = with_trailing_lf(s);
    if target_is_lf(t, kind) {
        crlf_to_lf(t)
    } else {
        lf_to_crlf(crlf_to_lf(t))
    }
}

/// No carriage return anywhere in the text.
pub open spec fn no_cr(s: Seq<char>) -> bool {
    forall|i: int| 0 <= i < s.len() ==> s[i] != '\r'
}

/// Every carriage return in the text is immediately followed by a line feed.
pub open spec fn cr_paired(s: Seq<char>) -> bool {
    forall|i: int| 0 <= i < s.len() && #[trigger] s[i] == '\r' ==> i + 1 < s.len() && s[i + 1]
        == '\n'
}

/// Relies on std's `String::push`: appends exactly the one character.
#[verifier::external_body]
pub(crate) fn push_char(s: &mut String, c: char)
    ensures
        final(s)@ == old(s)@.push(c),
{
    s.push(c);
}

/// Append a line feed when the text does not already end with one.
pub fn ensure_trailing_newline(text: String) -> (r: String)
    ensures
        r@ == with_trailing_lf(text@),
{
    let n: usize = text.as_str().unicode_len();
    if n == 0 {
        let mut t = text;
        push_char(&mut t, '\n');
        t
    } else {
        let c = text.as_str().get_char(n - 1);
        if c == '\n' {
            text
        } else {
            let mut t = text;
            push_char(&mut t, '\n');
            t
        }
    }
}

/// Collapse every carriage-return/line-feed pair to a bare line feed.
pub fn collapse_crlf(text: &str) -> (r: String)
    ensures
        r@ == crlf_to_lf(text@),
{
    let n: usize = text.unicode_len();
    let mut out = String::new();
    let mut i: usize = 0;
    proof {
        assert(text@.skip(0) =~= text@);
        assert(out@ + crlf_to_lf(text@) =~= crlf_to_lf(text@));
    }
    while i < n
        invariant
            i <= n,
            n == text@.len(),
            crlf_to_lf(text@) == out@ + crlf_to_lf(text@.skip(i as int)),
        decreases n - i,
    {
        let ghost rest = text@.skip(i as int);
        let ghost pre = out@;
        let c = text.get_char(i);
        if c == '\r' && i + 1 < n && text.get_char(i + 1) == '\n' {
            push_char(&mut out, '\n');
            proof {
                assert(rest.len() >= 2 && rest[0] == '\r' && rest[1] == '\n');
                assert(rest.skip(2) =~= text@.skip(i + 2));
                assert(crlf_to_lf(rest) == seq!['\n'] + crlf_to_lf(text@.skip(i + 2)));
                assert(out@ =~= pre + seq!['\n']);
                assert(out@ + crlf_to_lf(text@.skip(i + 2)) =~= pre + crlf_to_lf(rest));
            }
            i = i + 2;
        } else {
            push_char(&mut out, c);
            proof {
                assert(rest.len() >= 1 && rest[0] == c);
                assert(!(rest.len() >= 2 && rest[0] == '\r' && rest[1] == '\n'));
                assert(rest.skip(1) =~= text@.skip(i + 1));
                assert(crlf_to_lf(rest) == seq![c] + crlf_to_lf(text@.skip(i + 1)));
                assert(out@ =~= pre + seq![c]);
                assert(out@ + crlf_to_lf(text@.skip(i + 1)) =~= pre + crlf_to_lf(rest));
            }
            i = i + 1;
        }
    }
    proof {
        assert(text@.skip(n as int) =~= Seq::<char>::empty());
        assert(out@ + crlf_to_lf(text@.skip(n as int)) =~= out@);
    }
    out
}

/// Expand every line feed to a carriage-return/line-feed pair.
pub fn expand_lf(text: &str) -> (r: String)
    ensures
        r@ == lf_to_crlf(text@),
{
    let n: usize = text.unicode_len();
    let mut out = String::new();
    let mut i: usize = 0;
    proof {
        assert(text@.skip(0) =~= text@);
        assert(out@ + lf_to_crlf(text@) =~= lf_to_crlf(text@));
    }
    while i < n
        invariant
            i <= n,
            n == text@.len(),
            lf_to_crlf(text@) == out@ + lf_to_crlf(text@.skip(i as int)),
        decreases n - i,
    {
        let ghost rest = text@.skip(i as int);
        let ghost pre = out@;
        let c = text.get_char(i);
        if c == '\n' {
            push_char(&mut out, '\r');
            push_char(&mut out, '\n');
            proof {
                assert(rest.len() >= 1 && rest[0] == '\n');
                assert(rest.skip(1) =~= text@.skip(i + 1));
                assert(lf_to_crlf(rest) == seq!['\r', '\n'] + lf_to_crlf(text@.skip(i + 1)));
                assert(out@ =~= pre + seq!['\r', '\n']);
                assert(out@ + lf_to_crlf(text@.skip(i + 1)) =~= pre + lf_to_crlf(rest));
            }
        } else {
            push_char(&mut out, c);
            proof {
                assert(rest.len() >= 1 && rest[0] == c && c != '\n');
                assert(rest.skip(1) =~= text@.skip(i + 1));
                assert(lf_to_crlf(rest) == seq![c] + lf_to_crlf(text@.skip(i + 1)));
                assert(out@ =~= pre + seq![c]);
                assert(out@ + lf_to_crlf(text@.skip(i + 1)) =~= pre + lf_to_crlf(rest));
            }
        }
        i = i + 1;
    }
    proof {
        assert(text@.skip(n as int) =~= Seq::<char>::empty());
        assert(out@ + lf_to_crlf(text@.skip(n as int)) =~= out@);
    }
    out
}

/// Scan the text from the end for its last line feed, as `Auto` resolution
/// asks: decide from whether a carriage return stands right before it.
fn auto_scan_prefers_crlf(text: &str) -> (r: bool)
    ensures
        r == auto_prefers_crlf(text@),
{
    let n: usize = text.unicode_len();
    let mut j: usize = n;
    let mut result: bool = false;
    let mut decided: bool = false;
    proof {
        assert(text@.take(n as int) =~= text@);
    }
    while j > 0 && !decided
        invariant
            j <= n,
            n == text@.len(),
            !decided ==> auto_prefers_crlf(text@) == auto_prefers_crlf(text@.take(j as int)),
            !decided ==> result == false,
            decided ==> result == auto_prefers_crlf(text@),
        decreases j,
    {
        let ghost prefix = text@.take(j as int);
        let c = text.get_char(j - 1);
        if c == '\n' {
            result = j >= 2 && text.get_char(j - 2) == '\r';
            decided = true;
            proof {
                assert(prefix.len() == j && prefix.last() == '\n');
                assert(auto_prefers_crlf(prefix) == (j >= 2 && prefix[j - 2] == '\r'));
            }
            j = j - 1;
        } else {
            proof {
                assert(prefix.len() == j && prefix.last() != '\n');
                assert(prefix.drop_last() =~= text@.take(j - 1));
            }
            j = j - 1;
        }
    }
    proof {
        if !decided {
            assert(text@.take(0) =~= Seq::<char>::empty());
            assert(!auto_prefers_crlf(Seq::<char>::empty()));
        }
    }
    result
}

proof fn lemma_crlf_to_lf_last(s: Seq<char>)
    requires
        s.len() > 0,
        s.last() == '\n',
    ensures
        crlf_to_lf(s).len() > 0,
        crlf_to_lf(s).last() == '\n',
    decreases s.len(),
{
    if s.len() >= 2 && s[0] == '\r' && s[1] == '\n' {
        if s.len() == 2 {
            assert(s.skip(2) =~= Seq::<char>::empty());
            assert(crlf_to_lf(Seq::<char>::empty()) == Seq::<char>::empty());
            assert(crlf_to_lf(s) =~= seq!['\n']);
        } else {
            assert(s.skip(2).len() > 0 && s.skip(2).last() == '\n');
            lemma_crlf_to_lf_last(s.skip(2));
            assert(crlf_to_lf(s).last() == crlf_to_lf(s.skip(2)).last());
        }
    } else if s.len() == 1 {
        assert(s.skip(1) =~= Seq::<char>::empty());
        assert(crlf_to_lf(Seq::<char>::empty()) == Seq::<char>::empty());
        assert(crlf_to_lf(s) =~= seq![s[0]]);
    } else {
        assert(s.skip(1).len() > 0 && s.skip(1).last() == '\n');
        lemma_crlf_to_lf_last(s.skip(1));
        assert(crlf_to_lf(s).last() == crlf_to_lf(s.skip(1)).last());
    }
}

proof fn lemma_lf_to_crlf_last(s: Seq<char>)
    requires
        s.len() > 0,
        s.last() == '\n',
    ensures
        lf_to_crlf(s).len() >= 2,
        lf_to_crlf(s).last() == '\n',
        lf_to_crlf(s)[lf_to_crlf(s).len() - 2] == '\r',
    decreases s.len(),
{
    if s.len() == 1 {
        assert(s[0] == '\n');
        assert(s.skip(1) =~= Seq::<char>::empty());
        assert(lf_to_crlf(Seq::<char>::empty()) == Seq::<char>::empty());
        assert(lf_to_crlf(s) =~= seq!['\r', '\n']);
    } else {
        assert(s.skip(1).len() > 0 && s.skip(1).last() == '\n');
        lemma_lf_to_crlf_last(s.skip(1));
        let x = lf_to_crlf(s.skip(1));
        if s[0] == '\n' {
            assert(lf_to_crlf(s) == seq!['\r', '\n'] + x);
            assert((seq!['\r', '\n'] + x).last() == x.last());
            assert((seq!['\r', '\n'] + x)[(seq!['\r', '\n'] + x).len() - 2] == x[x.len() - 2]);
        } else {
            assert(lf_to_crlf(s) == seq![s[0]] + x);
            assert((seq![s[0]] + x).last() == x.last());
            assert((seq![s[0]] + x)[(seq![s[0]] + x).len() - 2] == x[x.len() - 2]);
        }
    }
}

proof fn lemma_no_cr_crlf_to_lf_identity(s: Seq<char>)
    requires
        no_cr(s),
    ensures
        crlf_to_lf(s) == s,
    decreases s.len(),
{
    if s.len() > 0 {
        assert(s[0] != '\r');
        assert forall|j: int| 0 <= j < s.skip(1).len() implies s.skip(1)[j] != '\r' by {
            assert(s.skip(1)[j] == s[j + 1]);
        }
        lemma_no_cr_crlf_to_lf_identity(s.skip(1));
        assert(seq![s[0]] + s.skip(1) =~= s);
    }
}

proof fn lemma_cr_paired_collapse_no_cr(s: Seq<char>)
    requires
        cr_paired(s),
    ensures
        no_cr(crlf_to_lf(s)),
    decreases s.len(),
{
    if s.len() == 0 {
    } else if s.len() >= 2 && s[0] == '\r' && s[1] == '\n' {
        assert forall|j: int|
            0 <= j < s.skip(2).len() && #[trigger] s.skip(2)[j] == '\r' implies j + 1 < s.skip(
            2,
        ).len() && s.skip(2)[j + 1] == '\n' by {
            assert(s.skip(2)[j] == s[j + 2]);
            assert(j + 3 < s.len() && s[j + 3] == '\n');
            assert(s.skip(2)[j + 1] == s[j + 3]);
        }
        lemma_cr_paired_collapse_no_cr(s.skip(2));
        let x = crlf_to_lf(s.skip(2));
        assert forall|j: int| 0 <= j < (seq!['\n'] + x).len() implies (seq!['\n'] + x)[j]
            != '\r' by {
            if j >= 1 {
                assert((seq!['\n'] + x)[j] == x[j - 1]);
            }
        }
    } else {
        assert(s[0] != '\r');
        assert forall|j: int|
            0 <= j < s.skip(1).len() && #[trigger] s.skip(1)[j] == '\r' implies j + 1 < s.skip(
            1,
        ).len() && s.skip(1)[j + 1] == '\n' by {
            assert(s.skip(1)[j] == s[j + 1]);
            assert(j + 2 < s.len() && s[j + 2] == '\n');
            assert(s.skip(1)[j + 1] == s[j + 2]);
        }
        lemma_cr_paired_collapse_no_cr(s.skip(1));
        let x = crlf_to_lf(s.skip(1));
        assert forall|j: int| 0 <= j < (seq![s[0]] + x).len() implies (seq![s[0]] + x)[j]
            != '\r' by {
            if j >= 1 {
                assert((seq![s[0]] + x)[j] == x[j - 1]);
            }
        }
    }
}

proof fn lemma_no_cr_roundtrip(s: Seq<char>)
    requires
        no_cr(s),
    ensures
        crlf_to_lf(lf_to_crlf(s)) == s,
    decreases s.len(),
{
    if s.len() == 0 {
    } else {
        assert forall|j: int| 0 <= j < s.skip(1).len() implies s.skip(1)[j] != '\r' by {
            assert(s.skip(1)[j] == s[j + 1]);
        }
        lemma_no_cr_roundtrip(s.skip(1));
        let x = lf_to_crlf(s.skip(1));
        if s[0] == '\n' {
            let t = seq!['\r', '\n'] + x;
            assert(lf_to_crlf(s) == t);
            assert(t.len() >= 2 && t[0] == '\r' && t[1] == '\n');
            assert(t.skip(2) =~= x);
            assert(crlf_to_lf(t) == seq!['\n'] + crlf_to_lf(x));
            assert(seq!['\n'] + s.skip(1) =~= s);
        } else {
            let t = seq![s[0]] + x;
            assert(lf_to_crlf(s) == t);
            assert(s[0] != '\r');
            assert(t.len() >= 1 && t[0] == s[0]);
            assert(!(t.len() >= 2 && t[0] == '\r' && t[1] == '\n'));
            assert(t.skip(1) =~= x);
            assert(crlf_to_lf(t) == seq![s[0]] + crlf_to_lf(x));
            assert(seq![s[0]] + s.skip(1) =~= s);
        }
    }
}

proof fn lemma_no_cr_not_auto(s: Seq<char>)
    requires
        no_cr(s),
    ensures
        !auto_prefers_crlf(s),
    decreases s.len(),
{
    if s.len() == 0 {
    } else if s.last() == '\n' {
        if s.len() >= 2 {
            assert(s[s.len() - 2] != '\r');
        }
    } else {
        assert forall|j: int| 0 <= j < s.drop_last().len() implies s.drop_last()[j] != '\r' by {
            assert(s.drop_last()[j] == s[j]);
        }
        lemma_no_cr_not_auto(s.drop_last());
    }
}

proof fn lemma_with_trailing_cr_paired(s: Seq<char>)
    requires
        cr_paired(s),
    ensures
        cr_paired(with_trailing_lf(s)),
{
    if !ends_with_lf(s) {
        let t = s.push('\n');
        assert forall|i: int| 0 <= i < t.len() && #[trigger] t[i] == '\r' implies i + 1 < t.len()
            && t[i + 1] == '\n' by {
            if i < s.len() {
                assert(t[i] == s[i]);
                assert(i + 1 < s.len() && s[i + 1] == '\n');
                assert(t[i + 1] == s[i + 1]);
            } else {
                assert(t[i] == '\n');
            }
        }
    }
}

/// Every normalized text ends with a line feed; under a carriage-return/
/// line-feed target a carriage return stands right before it. No further
/// terminator is ever added beyond the one the trailing-newline step owes.
pub proof fn lemma_normalized_ends_with_lf(s: Seq<char>, kind: NewLineKind)
    ensures
        ends_with_lf(normalized_text(s, kind)),
        !target_is_lf(with_trailing_lf(s), kind) ==> ({
            let r = normalized_text(s, kind);
            r.len() >= 2 && r[r.len() - 2] == '\r'
        }),
{
    let t = with_trailing_lf(s);
    assert(ends_with_lf(t));
    lemma_crlf_to_lf_last(t);
    if !target_is_lf(t, kind) {
        lemma_lf_to_crlf_last(crlf_to_lf(t));
    }
}

/// Normalization is idempotent: applied to its own output it changes nothing,
/// whatever the configured line-ending kind. The one proviso is that every
/// carriage return in the input stands in a carriage-return/line-feed pair;
/// a run such as a carriage return right before such a pair collapses further
/// on a second pass.
pub proof fn lemma_normalized_idempotent(s: Seq<char>, kind: NewLineKind)
    requires
        cr_paired(s),
    ensures
        normalized_text(normalized_text(s, kind), kind) == normalized_text(s, kind),
{
    let t = with_trailing_lf(s);
    lemma_with_trailing_cr_paired(s);
    assert(ends_with_lf(t));
    let m = crlf_to_lf(t);
    lemma_crlf_to_lf_last(t);
    lemma_cr_paired_collapse_no_cr(t);
    if target_is_lf(t, kind) {
        assert(normalized_text(s, kind) == m);
        assert(with_trailing_lf(m) == m);
        lemma_no_cr_not_auto(m);
        assert(target_is_lf(m, kind));
        lemma_no_cr_crlf_to_lf_identity(m);
        assert(normalized_text(m, kind) == m);
    } else {
        let r = lf_to_crlf(m);
        assert(normalized_text(s, kind) == r);
        lemma_lf_to_crlf_last(m);
        assert(ends_with_lf(r));
        assert(with_trailing_lf(r) == r);
        match kind {
            NewLineKind::CarriageReturnLineFeed => {
            }
            NewLineKind::Auto => {
                assert(auto_prefers_crlf(r));
            }
            NewLineKind::System => {
                assert(auto_prefers_crlf(r));
            }
            NewLineKind::LineFeed => {
                assert(false);
            }
        }
        assert(!target_is_lf(r, kind));
        lemma_no_cr_roundtrip(m);
        assert(crlf_to_lf(r) == m);
        assert(normalized_text(r, kind) == r);
    }
}

/// Resolve the target line ending for this text and kind: `true` means the
/// bare line feed, `false` the carriage-return/line-feed pair.
pub fn newline_target_is_lf(text: &str, kind: NewLineKind) -> (r: bool)
    ensures
        r == target_is_lf(text@, kind),
{
    match kind {
        NewLineKind::LineFeed => true,
        NewLineKind::CarriageReturnLineFeed => false,
        NewLineKind::Auto => !auto_scan_prefers_crlf(text),
        NewLineKind::System => !auto_scan_prefers_crlf(text),
    }
}

} // verus!
