//! Resolution of boolean settings from an admin configuration source, a
//! user source and a built-in default, in that order of priority.

use vstd::prelude::*;
use vstd::string::*;

verus! {

/// Whitespace as `str::trim` understands it: the characters with the
/// Unicode property White_Space.
pub open spec fn is_whitespace(c: char) -> bool {
    ('\u{9}' <= c && c <= '\u{d}') || c == ' ' || c == '\u{85}' || c == '\u{a0}' || c
        == '\u{1680}' || ('\u{2000}' <= c && c <= '\u{200a}') || c == '\u{2028}' || c
        == '\u{2029}' || c == '\u{202f}' || c == '\u{205f}' || c == '\u{3000}'
}

/// The text with its leading whitespace removed.
pub open spec fn trim_start(s: Seq<char>) -> Seq<char>
    decreases s.len(),
{
    if s.len() > 0 && is_whitespace(s[0]) {
        trim_start(s.drop_first())
    } else {
        s
    }
}

/// The text with its trailing whitespace removed.
pub open spec fn trim_end(s: Seq<char>) -> Seq<char>
    decreases s.len(),
{
    if s.len() > 0 && is_whitespace(s.last()) {
        trim_end(s.drop_last())
    } else {
        s
    }
}

/// The text with leading and trailing whitespace removed.
pub open spec fn trimmed(s: Seq<char>) -> Seq<char> {
    trim_end(trim_start(s))
}

fn is_whitespace_char(c: char) -> (r: bool)
    ensures
        r == is_whitespace(c),
{
    ('\u{9}' <= c && c <= '\u{d}') || c == ' ' || c == '\u{85}' || c == '\u{a0}' || c
        == '\u{1680}' || ('\u{2000}' <= c && c <= '\u{200a}') || c == '\u{2028}' || c
        == '\u{2029}' || c == '\u{202f}' || c == '\u{205f}' || c == '\u{3000}'
}

proof fn lemma_trim_start(s: Seq<char>, k: int)
    requires
        0 <= k <= s.len(),
        forall|i: int| 0 <= i < k ==> is_whitespace(#[trigger] s[i]),
        k == s.len() || !is_whitespace(s[k]),
    ensures
        trim_start(s) == s.subrange(k, s.len() as int),
    decreases k,
{
    if k == 0 {
        assert(s.subrange(0, s.len() as int) =~= s);
    } else {
        lemma_trim_start(s.drop_first(), k - 1);
        assert(s.drop_first().subrange(k - 1, s.len() - 1) =~= s.subrange(k, s.len() as int));
    }
}

proof fn lemma_trim_end(s: Seq<char>, k: int)
    requires
        0 <= k <= s.len(),
        forall|i: int| k <= i < s.len() ==> is_whitespace(#[trigger] s[i]),
        k == 0 || !is_whitespace(s[k - 1]),
    ensures
        trim_end(s) == s.subrange(0, k),
    decreases s.len() - k,
{
    if k == s.len() {
        assert(s.subrange(0, k) =~= s);
    } else {
        lemma_trim_end(s.drop_last(), k);
        assert(s.drop_last().subrange(0, k) =~= s.subrange(0, k));
    }
}

/// The bounds, within `s`, of the characters from `from` to `to` once
/// leading and trailing whitespace is removed.
fn trim_bounds(s: &str, from: usize, to: usize) -> (r: (usize, usize))
    requires
        from <= to <= s@.len(),
    ensures
        from <= r.0 <= r.1 <= to,
        s@.subrange(r.0 as int, r.1 as int) == trimmed(s@.subrange(from as int, to as int)),
{
    let mut a: usize = from;
    while a < to && is_whitespace_char(s.get_char(a))
        invariant
            from <= a <= to <= s@.len(),
            forall|i: int| from <= i < a ==> is_whitespace(#[trigger] s@[i]),
        decreases to - a,
    {
        a = a + 1;
    }
    let mut b: usize = to;
    while b > a && is_whitespace_char(s.get_char(b - 1))
        invariant
            from <= a <= b <= to <= s@.len(),
            forall|i: int| b <= i < to ==> is_whitespace(#[trigger] s@[i]),
        decreases b - a,
    {
        b = b - 1;
    }
    proof {
        let t = s@.subrange(from as int, to as int);
        lemma_trim_start(t, a - from);
        let u = s@.subrange(a as int, to as int);
        assert(t.subrange(a - from, t.len() as int) =~= u);
        lemma_trim_end(u, b - a);
        assert(u.subrange(0, b - a) =~= s@.subrange(a as int, b as int));
    }
    (a, b)
}

/// Exactly the texts `1` and `true` mean true.
pub open spec fn is_truthy(v: Seq<char>) -> bool {
    v == seq!['1'] || v == seq!['t', 'r', 'u', 'e']
}

/// A comment line (starting with `#`) or a blank one (starting with a
/// carriage return or a newline) is skipped.
pub open spec fn is_skipped_line(line: Seq<char>) -> bool {
    line.len() > 0 && (line[0] == '#' || line[0] == '\r' || line[0] == '\n')
}

/// Position `p` holds the one and only `=` of the line.
pub open spec fn is_separator_at(line: Seq<char>, p: int) -> bool {
    &&& 0 <= p < line.len()
    &&& line[p] == '='
    &&& forall|q: int| 0 <= q < line.len() && q != p ==> line[q] != '='
}

/// The trimmed name and the trimmed value of a `name = value` line; `None`
/// for a skipped line and for one without exactly one `=`.
pub open spec fn parse_line(line: Seq<char>) -> Option<(Seq<char>, Seq<char>)> {
    if is_skipped_line(line) {
        None
    } else if exists|p: int| is_separator_at(line, p) {
        let p = choose|p: int| is_separator_at(line, p);
        Some((trimmed(line.subrange(0, p)), trimmed(line.subrange(p + 1, line.len() as int))))
    } else {
        None
    }
}

/// What one line says of the setting `key`: `None` unless it assigns it.
pub open spec fn line_setting(line: Seq<char>, key: Seq<char>) -> Option<bool> {
    match parse_line(line) {
        Some(nv) => if nv.0 == key {
            Some(is_truthy(nv.1))
        } else {
            None
        },
        None => None,
    }
}

/// Whether the characters of `s` from `from` to `to` are exactly `t`.
fn range_equals(s: &str, from: usize, to: usize, t: &str) -> (r: bool)
    requires
        from <= to <= s@.len(),
    ensures
        r == (s@.subrange(from as int, to as int) == t@),
{
    let n = t.unicode_len();
    if to - from != n {
        return false;
    }
    let mut k: usize = 0;
    while k < n
        invariant
            k <= n,
            n == t@.len(),
            to - from == n,
            from <= to <= s@.len(),
            forall|i: int| 0 <= i < k ==> s@[from + i] == t@[i],
        decreases n - k,
    {
        if s.get_char(from + k) != t.get_char(k) {
            assert(s@.subrange(from as int, to as int)[k as int] != t@[k as int]);
            return false;
        }
        k = k + 1;
    }
    assert(s@.subrange(from as int, to as int) =~= t@);
    true
}

/// Whether the characters of `s` from `from` to `to` are `1` or `true`.
fn range_is_truthy(s: &str, from: usize, to: usize) -> (r: bool)
    requires
        from <= to <= s@.len(),
    ensures
        r == is_truthy(s@.subrange(from as int, to as int)),
{
    let ghost v = s@.subrange(from as int, to as int);
    if to - from == 1 {
        let r = s.get_char(from) == '1';
        assert(r ==> v =~= seq!['1']);
        assert(v == seq!['1'] ==> v[0] == '1');
        assert(v.len() != 4);
        r
    } else if to - from == 4 {
        let r = s.get_char(from) == 't' && s.get_char(from + 1) == 'r' && s.get_char(from + 2)
            == 'u' && s.get_char(from + 3) == 'e';
        assert(r ==> v =~= seq!['t', 'r', 'u', 'e']);
        assert(v == seq!['t', 'r', 'u', 'e'] ==> v[0] == 't' && v[1] == 'r' && v[2] == 'u' && v[3]
            == 'e');
        assert(v.len() != 1);
        r
    } else {
        assert(v.len() != 1 && v.len() != 4);
        assert(seq!['1'].len() == 1 && seq!['t', 'r', 'u', 'e'].len() == 4);
        false
    }
}

/// The position of the one `=` of the line, or `None` where the line holds
/// no `=` or more than one.
fn find_separator(line: &str) -> (r: Option<usize>)
    ensures
        match r {
            Some(p) => is_separator_at(line@, p as int),
            None => forall|p: int| !is_separator_at(line@, p),
        },
{
    let n = line.unicode_len();
    let mut found: Option<usize> = None;
    let mut i: usize = 0;
    while i < n
        invariant
            i <= n,
            n == line@.len(),
            match found {
                Some(p) => p < i && line@[p as int] == '=' && forall|q: int|
                    0 <= q < i && q != p ==> line@[q] != '=',
                None => forall|q: int| 0 <= q < i ==> line@[q] != '=',
            },
        decreases n - i,
    {
        if line.get_char(i) == '=' {
            match found {
                Some(p) => {
                    assert forall|q: int| !is_separator_at(line@, q) by {
                        if is_separator_at(line@, q) {
                            if q == p {
                                assert(line@[i as int] == '=');
                            } else {
                                assert(line@[p as int] == '=');
                            }
                        }
                    }
                    return None;
                },
                None => {
                    found = Some(i);
                },
            }
        }
        i = i + 1;
    }
    found
}

/// What one configuration line says of the setting `key`: `Some` of its
/// truth value where the line assigns `key`, `None` otherwise.
pub fn parse_setting_line(line: &str, key: &str) -> (r: Option<bool>)
    ensures
        r == line_setting(line@, key@),
{
    let n = line.unicode_len();
    if n > 0 {
        let c = line.get_char(0);
        if c == '#' || c == '\r' || c == '\n' {
            return None;
        }
    }
    match find_separator(line) {
        None => None,
        Some(p) => {
            proof {
                let q = choose|q: int| is_separator_at(line@, q);
                assert(q == p as int);
            }
            let (na, nb) = trim_bounds(line, 0, p);
            if !range_equals(line, na, nb, key) {
                return None;
            }
            let (va, vb) = trim_bounds(line, p + 1, n);
            Some(range_is_truthy(line, va, vb))
        },
    }
}

/// Source of how a setting was configured
#[derive(Clone, Copy, Debug, PartialEq, Eq, Structural)]
pub enum SettingSource {
    /// User-specified setting
    User,
    /// Admin-specified setting
    Admin,
    /// Default setting
    Default,
}

/// Setting booleans
#[derive(Clone, Copy, Debug)]
pub struct SettingBool {
    /// Boolean value
    pub value: bool,
    /// Source of the configuration setting (user/admin/default)
    pub source: SettingSource,
}

/// What the admin configuration lines say of the setting `key`: the value
/// given by the first line that assigns it, `None` where no line does.
pub open spec fn admin_setting(lines: Seq<Seq<char>>, key: Seq<char>) -> Option<bool>
    decreases lines.len(),
{
    if lines.len() == 0 {
        None
    } else if line_setting(lines[0], key) is Some {
        line_setting(lines[0], key)
    } else {
        admin_setting(lines.drop_first(), key)
    }
}

/// The setting that the admin source, the user source and the default give
/// together: the admin source wins over the user source, which wins over the
/// default.
pub open spec fn resolved_setting(admin: Option<bool>, user: Option<Seq<char>>, def: bool) -> (
    bool,
    SettingSource,
) {
    match admin {
        Some(b) => (b, SettingSource::Admin),
        None => match user {
            Some(v) => (is_truthy(v), SettingSource::User),
            None => (def, SettingSource::Default),
        },
    }
}

/// The view of an optional user value.
pub open spec fn user_view(user: Option<&str>) -> Option<Seq<char>> {
    match user {
        Some(v) => Some(v@),
        None => None,
    }
}

/// Get a boolean config value from the lines of the admin configuration
/// source. An absent source is an empty sequence of lines.
pub fn _get_bool_config(key: &str, lines: &Vec<String>) -> (r: SettingBool)
    ensures
        match admin_setting(lines.deep_view(), key@) {
            Some(b) => r.value == b && r.source == SettingSource::Admin,
            None => !r.value && r.source == SettingSource::Default,
        },
{
    let mut setting = SettingBool { value: false, source: SettingSource::Default };
    let ghost all = lines.deep_view();
    assert(all.subrange(0, all.len() as int) =~= all);
    let mut i: usize = 0;
    while i < lines.len()
        invariant
            i <= lines.len(),
            all == lines.deep_view(),
            admin_setting(all, key@) == admin_setting(all.subrange(i as int, all.len() as int), key@),
            !setting.value && setting.source == SettingSource::Default,
        decreases lines.len() - i,
    {
        let ghost rest = all.subrange(i as int, all.len() as int);
        assert(rest[0] == lines[i as int]@);
        assert(rest.drop_first() =~= all.subrange(i + 1, all.len() as int));
        if let Some(value) = parse_setting_line(lines[i].as_str(), key) {
            setting.source = SettingSource::Admin;
            setting.value = value;
            return setting;
        }
        i = i + 1;
    }
    setting
}

/// Get a setting boolean from the value of the user source, where it has
/// one.
pub fn _get_bool_env(user_value: Option<&str>) -> (r: SettingBool)
    ensures
        match user_value {
            Some(v) => r.value == is_truthy(v@) && r.source == SettingSource::User,
            None => !r.value && r.source == SettingSource::Default,
        },
{
    match user_value {
        Some(v) => {
            let n = v.unicode_len();
            assert(v@.subrange(0, n as int) =~= v@);
            SettingBool { value: range_is_truthy(v, 0, n), source: SettingSource::User }
        },
        None => SettingBool { value: false, source: SettingSource::Default },
    }
}

/// Get a setting boolean: from the admin configuration lines where one of
/// them assigns `key`, else from the user source's value where it has one,
/// else `def`.
pub fn setting_get_bool(key: &str, def: bool, admin_lines: &Vec<String>, user_value: Option<&str>) -> (r: SettingBool)
    ensures
        (r.value, r.source) == resolved_setting(
            admin_setting(admin_lines.deep_view(), key@),
            user_view(user_value),
            def,
        ),
{
    let mut setting = _get_bool_config(key, admin_lines);

    if setting.source == SettingSource::Default {
        setting = _get_bool_env(user_value);
    }

    if setting.source == SettingSource::Default {
        setting.value = def;
    }

    setting
}

/// `t` is `s` with each ASCII lower-case letter replaced by its upper-case
/// letter, every other character kept.
pub open spec fn is_ascii_uppercase_of(s: Seq<char>, t: Seq<char>) -> bool {
    &&& t.len() == s.len()
    &&& forall|i: int|
        0 <= i < s.len() ==> if 'a' <= #[trigger] s[i] && s[i] <= 'z' {
            t[i] as u32 == s[i] as u32 - 32
        } else {
            t[i] == s[i]
        }
}

/// Prefix of the name of the variable that holds a user setting.
pub open spec fn user_variable_prefix() -> Seq<char> {
    seq!['Y', 'U', 'B', 'I', 'K', 'E', 'Y', '_', 'P', 'I', 'V', '_']
}

/// Relies on `str::to_ascii_uppercase`: a copy of the text in which ASCII
/// letters `a` to `z` become `A` to `Z` and every other character is kept.
#[verifier::external_body]
fn ascii_uppercase(s: &str) -> (r: String)
    ensures
        is_ascii_uppercase_of(s@, r@),
{
    s.to_ascii_uppercase()
}

/// Name of the variable of the user source that holds the setting `key`:
/// the fixed prefix followed by `key` in ASCII upper case.
pub fn user_variable_name(key: &str) -> (r: String)
    ensures
        r@.len() == user_variable_prefix().len() + key@.len(),
        r@.subrange(0, user_variable_prefix().len() as int) == user_variable_prefix(),
        is_ascii_uppercase_of(
            key@,
            r@.subrange(user_variable_prefix().len() as int, r@.len() as int),
        ),
{
    let prefix = String::from_str("YUBIKEY_PIV_");
    proof {
        reveal_strlit("YUBIKEY_PIV_");
        assert(prefix@ =~= user_variable_prefix());
    }
    let upper = ascii_uppercase(key);
    let r = prefix.concat(upper.as_str());
    assert(r@.subrange(0, 12) =~= user_variable_prefix());
    assert(r@.subrange(12, r@.len() as int) =~= upper@);
    r
}

} // verus!
