//! The raw per-invocation override map: string keys bound to loosely typed
//! values, together with the coercions that turn such a value into a typed
//! setting and the diagnostics that report the values that do not convert.

use vstd::prelude::*;

use crate::settings::NewLineKind;
use vstd::string::StrSliceExecFns;
use vstd::string::StringExecFns;

verus! {

/// A loosely typed override value, as a host hands it in.
#[derive(Clone, Debug)]
pub enum ConfigKeyValue {
    Bool(bool),
    Int(i32),
    Str(String),
    Null,
}

/// The mathematical shape of an override value: the same variants, with the
/// string carried as its character sequence.
pub enum ConfigValueV {
    Bool(bool),
    Int(i32),
    Str(Seq<char>),
    Null,
}

impl View for ConfigKeyValue {
    type V = ConfigValueV;

    open spec fn view(&self) -> ConfigValueV {
        match self {
            ConfigKeyValue::Bool(b) => ConfigValueV::Bool(*b),
            ConfigKeyValue::Int(n) => ConfigValueV::Int(*n),
            ConfigKeyValue::Str(s) => ConfigValueV::Str(s@),
            ConfigKeyValue::Null => ConfigValueV::Null,
        }
    }
}

/// The override map: an ordered list of key/value entries. A host's map has
/// one entry per key; when a key repeats, the first entry is the one read.
pub struct ConfigKeyMap {
    pub entries: Vec<(String, ConfigKeyValue)>,
}

impl View for ConfigKeyMap {
    type V = Seq<(Seq<char>, ConfigValueV)>;

    open spec fn view(&self) -> Seq<(Seq<char>, ConfigValueV)> {
        self.entries@.map(|i: int, e: (String, ConfigKeyValue)| (e.0@, e.1@))
    }
}

impl ConfigKeyMap {
    /// An empty override map.
    pub fn new() -> (r: ConfigKeyMap)
        ensures
            r@ == Seq::<(Seq<char>, ConfigValueV)>::empty(),
    {
        let r = ConfigKeyMap { entries: Vec::new() };
        proof {
            assert(r@ =~= Seq::<(Seq<char>, ConfigValueV)>::empty());
        }
        r
    }

    /// Append an entry for the key.
    pub fn insert(&mut self, key: String, value: ConfigKeyValue)
        ensures
            final(self)@ == old(self)@.push((key@, value@)),
    {
        let ghost pre = self@;
        self.entries.push((key, value));
        proof {
            assert(self@ =~= pre.push((key@, value@)));
        }
    }
}

impl Default for ConfigKeyMap {
    /// An empty override map.
    fn default() -> (r: ConfigKeyMap)
        ensures
            r@ == Seq::<(Seq<char>, ConfigValueV)>::empty(),
    {
        ConfigKeyMap::new()
    }
}

/// A report on one configuration key: either its value did not convert, or
/// the key itself is not recognized. Diagnostics never block resolution.
#[derive(Clone, Debug)]
pub struct Diagnostic {
    /// The key the problem occurred on.
    pub property_name: String,
    /// The message shown to the user.
    pub message: String,
}

impl View for Diagnostic {
    type V = (Seq<char>, Seq<char>);

    open spec fn view(&self) -> (Seq<char>, Seq<char>) {
        (self.property_name@, self.message@)
    }
}

/// The diagnostics list as key/message pairs.
pub open spec fn diags_view(d: Seq<Diagnostic>) -> Seq<(Seq<char>, Seq<char>)> {
    d.map(|i: int, x: Diagnostic| x@)
}

/// The message reported for a value that does not convert to its key's type.
pub open spec fn invalid_value_message() -> Seq<char> {
    "Found invalid value"@
}

/// The message reported for a key the resolver does not recognize.
pub open spec fn unknown_property_message() -> Seq<char> {
    "Unknown property in configuration"@
}

/// The first value bound to the key, if any.
pub open spec fn lookup(m: Seq<(Seq<char>, ConfigValueV)>, key: Seq<char>) -> Option<ConfigValueV>
    decreases m.len(),
{
    if m.len() == 0 {
        None
    } else if m[0].0 == key {
        Some(m[0].1)
    } else {
        lookup(m.skip(1), key)
    }
}

/// The value bound to the key when one is there and is not `Null`: an
/// explicit `Null` counts as an absent setting, never as an error.
pub open spec fn present_value(m: Seq<(Seq<char>, ConfigValueV)>, key: Seq<char>) -> Option<
    ConfigValueV,
> {
    match lookup(m, key) {
        Some(v) => if v is Null {
            None
        } else {
            Some(v)
        },
        None => None,
    }
}

/// The boolean a value converts to: a boolean itself, or the strings
/// `"true"` and `"false"`.
pub open spec fn coerce_bool(v: ConfigValueV) -> Option<bool> {
    match v {
        ConfigValueV::Bool(b) => Some(b),
        ConfigValueV::Str(s) => if s == "true"@ {
            Some(true)
        } else if s == "false"@ {
            Some(false)
        } else {
            None
        },
        _ => None,
    }
}

/// An ASCII decimal digit.
pub open spec fn is_ascii_digit(c: char) -> bool {
    48 <= c as u32 && c as u32 <= 57
}

pub open spec fn all_ascii_digits(s: Seq<char>) -> bool {
    forall|i: int| 0 <= i < s.len() ==> is_ascii_digit(#[trigger] s[i])
}

/// The number a digit string stands for, most significant digit first.
pub open spec fn digits_value(s: Seq<char>) -> int
    decreases s.len(),
{
    if s.len() == 0 {
        0
    } else {
        digits_value(s.drop_last()) * 10 + (s.last() as u32 - 48)
    }
}

/// The number a string stands for: an optional leading `+`, then one or more
/// ASCII digits; anything else does not convert.
pub open spec fn str_int_value(s: Seq<char>) -> Option<int> {
    let digits = if s.len() > 0 && s[0] == '+' {
        s.skip(1)
    } else {
        s
    };
    if digits.len() > 0 && all_ascii_digits(digits) {
        Some(digits_value(digits))
    } else {
        None
    }
}

/// The integer in `lo ..= hi` a value converts to: an integer in range, or a
/// digit string whose number is in range.
pub open spec fn coerce_int(v: ConfigValueV, lo: int, hi: int) -> Option<int> {
    match v {
        ConfigValueV::Int(n) => if lo <= n && n <= hi {
            Some(n as int)
        } else {
            None
        },
        ConfigValueV::Str(s) => match str_int_value(s) {
            Some(n) => if lo <= n && n <= hi {
                Some(n)
            } else {
                None
            },
            None => None,
        },
        _ => None,
    }
}

/// The line-ending kind a value converts to: one of the strings `"auto"`,
/// `"lf"`, `"crlf"` and `"system"`.
pub open spec fn coerce_new_line_kind(v: ConfigValueV) -> Option<NewLineKind> {
    match v {
        ConfigValueV::Str(s) => if s == "auto"@ {
            Some(NewLineKind::Auto)
        } else if s == "lf"@ {
            Some(NewLineKind::LineFeed)
        } else if s == "crlf"@ {
            Some(NewLineKind::CarriageReturnLineFeed)
        } else if s == "system"@ {
            Some(NewLineKind::System)
        } else {
            None
        },
        _ => None,
    }
}

/// Find the first entry for the key.
pub fn lookup_value<'a>(m: &'a ConfigKeyMap, key: &String) -> (r: Option<&'a ConfigKeyValue>)
    ensures
        match r {
            Some(v) => lookup(m@, key@) == Some(v@),
            None => lookup(m@, key@) is None,
        },
{
    let n = m.entries.len();
    let mut i: usize = 0;
    proof {
        assert(m@.skip(0) =~= m@);
    }
    while i < n
        invariant
            i <= n,
            n == m.entries.len(),
            m@.len() == n,
            lookup(m@, key@) == lookup(m@.skip(i as int), key@),
        decreases n - i,
    {
        let ghost rest = m@.skip(i as int);
        if m.entries[i].0.eq(key) {
            proof {
                assert(rest[0] == m@[i as int]);
                assert(m@[i as int].0 == key@);
                assert(lookup(rest, key@) == Some(rest[0].1));
                assert(m@[i as int].1 == m.entries@[i as int].1@);
            }
            return Some(&m.entries[i].1);
        }
        proof {
            assert(rest[0] == m@[i as int]);
            assert(m@[i as int].0 == m.entries@[i as int].0@);
            assert(rest[0].0 != key@);
            assert(rest.skip(1) =~= m@.skip(i + 1));
        }
        i = i + 1;
    }
    proof {
        assert(m@.skip(n as int) =~= Seq::<(Seq<char>, ConfigValueV)>::empty());
    }
    None
}

/// The boolean coercion, on a borrowed value.
pub fn value_as_bool(v: &ConfigKeyValue) -> (r: Option<bool>)
    ensures
        r == coerce_bool(v@),
{
    match v {
        ConfigKeyValue::Bool(b) => Some(*b),
        ConfigKeyValue::Str(s) => {
            let t = String::from_str("true");
            let f = String::from_str("false");
            if s.eq(&t) {
                Some(true)
            } else if s.eq(&f) {
                Some(false)
            } else {
                None
            }
        },
        _ => None,
    }
}

/// The line-ending-kind coercion, on a borrowed value.
pub fn value_as_new_line_kind(v: &ConfigKeyValue) -> (r: Option<NewLineKind>)
    ensures
        r == coerce_new_line_kind(v@),
{
    match v {
        ConfigKeyValue::Str(s) => {
            if s.eq(&String::from_str("auto")) {
                Some(NewLineKind::Auto)
            } else if s.eq(&String::from_str("lf")) {
                Some(NewLineKind::LineFeed)
            } else if s.eq(&String::from_str("crlf")) {
                Some(NewLineKind::CarriageReturnLineFeed)
            } else if s.eq(&String::from_str("system")) {
                Some(NewLineKind::System)
            } else {
                None
            }
        },
        _ => None,
    }
}

/// Parse a digit string (optional leading `+`) into `lo ..= hi`.
fn parse_int_str(s: &str, lo: i32, hi: i32) -> (r: Option<i32>)
    requires
        0 <= lo,
        lo <= hi,
    ensures
        match r {
            Some(n) => lo <= n && n <= hi && str_int_value(s@) == Some(n as int),
            None => match str_int_value(s@) {
                Some(v) => !(lo <= v && v <= hi),
                None => true,
            },
        },
{
    let n: usize = s.unicode_len();
    let start: usize = if n > 0 && s.get_char(0) == '+' {
        1
    } else {
        0
    };
    let ghost digits = if start == 1 {
        s@.skip(1)
    } else {
        s@
    };
    proof {
        assert(digits == (if s@.len() > 0 && s@[0] == '+' {
            s@.skip(1)
        } else {
            s@
        }));
    }
    if n == start {
        proof {
            assert(digits.len() == 0);
            assert(str_int_value(s@) is None);
        }
        return None;
    }
    let mut acc: i64 = 0;
    let mut over: bool = false;
    let mut i: usize = start;
    proof {
        assert(digits.take(0) =~= Seq::<char>::empty());
    }
    while i < n
        invariant
            start <= i <= n,
            n == s@.len(),
            start == 0 || start == 1,
            start == 1 ==> s@.len() > 0 && s@[0] == '+',
            start == 0 ==> s@.len() == 0 || s@[0] != '+',
            digits == (if start == 1 {
                s@.skip(1)
            } else {
                s@
            }),
            digits.len() == n - start,
            0 <= lo <= hi,
            all_ascii_digits(digits.take(i - start)),
            !over ==> 0 <= acc <= hi && acc as int == digits_value(digits.take(i - start)),
            over ==> digits_value(digits.take(i - start)) > hi,
        decreases n - i,
    {
        let ghost k = i - start;
        let c = s.get_char(i);
        let u: u32 = c as u32;
        proof {
            assert(digits[k] == c);
        }
        if !(48 <= u && u <= 57) {
            proof {
                assert(0 <= k < digits.len() && !is_ascii_digit(digits[k]));
                assert(!all_ascii_digits(digits));
                assert(str_int_value(s@) is None);
            }
            return None;
        }
        let d: i64 = (u - 48) as i64;
        proof {
            assert(digits.take(k + 1).drop_last() =~= digits.take(k));
            assert(digits.take(k + 1).last() == c);
            assert(digits_value(digits.take(k + 1)) == digits_value(digits.take(k)) * 10 + (c
                as u32 - 48));
            assert forall|j: int| 0 <= j < digits.take(k + 1).len() implies is_ascii_digit(
                #[trigger] digits.take(k + 1)[j],
            ) by {
                if j < k {
                    assert(digits.take(k + 1)[j] == digits.take(k)[j]);
                } else {
                    assert(digits.take(k + 1)[j] == c);
                }
            }
        }
        if over {
            proof {
                assert(digits_value(digits.take(k)) * 10 + (c as u32 - 48) > hi);
            }
        } else {
            let next: i64 = acc * 10 + d;
            if next > hi as i64 {
                over = true;
            } else {
                acc = next;
            }
        }
        i = i + 1;
    }
    proof {
        assert(digits.take(n - start) =~= digits);
    }
    if over {
        None
    } else if acc < lo as i64 {
        None
    } else {
        Some(acc as i32)
    }
}

/// The integer coercion into `lo ..= hi`, on a borrowed value.
pub fn value_as_int(v: &ConfigKeyValue, lo: i32, hi: i32) -> (r: Option<i32>)
    requires
        0 <= lo,
        lo <= hi,
    ensures
        match r {
            Some(n) => coerce_int(v@, lo as int, hi as int) == Some(n as int),
            None => coerce_int(v@, lo as int, hi as int) is None,
        },
{
    match v {
        ConfigKeyValue::Int(n) => {
            if lo <= *n && *n <= hi {
                Some(*n)
            } else {
                None
            }
        },
        ConfigKeyValue::Str(s) => parse_int_str(s.as_str(), lo, hi),
        _ => None,
    }
}

} // verus!
