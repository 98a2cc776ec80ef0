use vstd::prelude::*;

use crate::text::{chars_eq, chars_vec, fold_lower, lower_of, string_of, sub_vec};

verus! {

/// A key, as this client models terminal input; anything the controller does
/// not react to is `Other`.
#[derive(Debug, Clone, Copy, PartialEq, Eq, Structural)]
pub enum KeyCode {
    Char(char),
    Esc,
    Enter,
    Backspace,
    Up,
    Down,
    PageUp,
    PageDown,
    Home,
    End,
    Other,
}

/// One key press with its modifiers.
#[derive(Debug, Clone, Copy, PartialEq, Eq, Structural)]
pub struct KeyPress {
    pub code: KeyCode,
    pub ctrl: bool,
    pub alt: bool,
}

impl KeyPress {
    /// A plain press of `c`, without modifiers.
    pub fn plain(c: char) -> (r: KeyPress)
        ensures
            r == (KeyPress { code: KeyCode::Char(c), ctrl: false, alt: false }),
    {
        KeyPress { code: KeyCode::Char(c), ctrl: false, alt: false }
    }
}

/// The Unicode White_Space set, as `str::trim` strips it.
pub open spec fn is_space(c: char) -> bool {
    ||| c == ' ' || c == '\t' || c == '\n' || c == '\r'
    ||| c == '\u{000B}' || c == '\u{000C}' || c == '\u{0085}' || c == '\u{00A0}'
    ||| c == '\u{1680}'
    ||| ('\u{2000}' <= c && c <= '\u{200A}')
    ||| c == '\u{2028}' || c == '\u{2029}' || c == '\u{202F}' || c == '\u{205F}'
    ||| c == '\u{3000}'
}

/// Decides `is_space`.
fn is_space_exec(c: char) -> (r: bool)
    ensures
        r == is_space(c),
{
    c == ' ' || c == '\t' || c == '\n' || c == '\r' || c == '\u{000B}' || c == '\u{000C}'
        || c == '\u{0085}' || c == '\u{00A0}' || c == '\u{1680}' || ('\u{2000}' <= c && c
        <= '\u{200A}') || c == '\u{2028}' || c == '\u{2029}' || c == '\u{202F}' || c
        == '\u{205F}' || c == '\u{3000}'
}

pub open spec fn trim_start(s: Seq<char>) -> Seq<char>
    decreases s.len(),
{
    if s.len() > 0 && is_space(s[0]) {
        trim_start(s.drop_first())
    } else {
        s
    }
}

pub open spec fn trim_end(s: Seq<char>) -> Seq<char>
    decreases s.len(),
{
    if s.len() > 0 && is_space(s[s.len() - 1]) {
        trim_end(s.drop_last())
    } else {
        s
    }
}

/// `s` without leading and trailing whitespace.
pub open spec fn trimmed(s: Seq<char>) -> Seq<char> {
    trim_end(trim_start(s))
}

pub open spec fn is_ascii_char(c: char) -> bool {
    (c as u32) < 128
}

/// Upper-case ASCII letters folded to lower case; other characters kept.
pub open spec fn ascii_lower_char(c: char) -> char {
    if 'A' <= c && c <= 'Z' {
        (((c as u8) + 32) as char)
    } else {
        c
    }
}

fn lower_char(c: char) -> (r: char)
    ensures
        r == ascii_lower_char(c),
{
    if 'A' <= c && c <= 'Z' {
        ((c as u8) + 32) as char
    } else {
        c
    }
}

proof fn lemma_trim_start_skip(s: Seq<char>, a: int)
    requires
        0 <= a <= s.len(),
        forall|k: int| 0 <= k < a ==> is_space(s[k]),
        a < s.len() ==> !is_space(s[a]),
    ensures
        trim_start(s) == s.skip(a),
    decreases a,
{
    if a == 0 {
        assert(s.skip(0) =~= s);
    } else {
        assert(is_space(s[0]));
        lemma_trim_start_skip(s.drop_first(), a - 1);
        assert(s.drop_first().skip(a - 1) =~= s.skip(a));
    }
}

proof fn lemma_trim_end_take(s: Seq<char>, b: int)
    requires
        0 <= b <= s.len(),
        forall|k: int| b <= k < s.len() ==> is_space(s[k]),
        b > 0 ==> !is_space(s[b - 1]),
    ensures
        trim_end(s) == s.take(b),
    decreases s.len(),
{
    if b == s.len() {
        assert(s.take(b) =~= s);
    } else {
        assert(is_space(s[s.len() - 1]));
        lemma_trim_end_take(s.drop_last(), b);
        assert(s.drop_last().take(b) =~= s.take(b));
    }
}

/// The characters of `s`, trimmed and lower-cased exactly as the original
/// binding syntax is read: Unicode whitespace stripped, then the whole
/// remainder folded through `str::to_lowercase`.
fn normalize(s: &str) -> (r: Vec<char>)
    ensures
        r@ == lower_of(trimmed(s@)),
{
    let v = chars_vec(s);
    let n = v.len();
    let mut a: usize = 0;
    loop
        invariant
            n == v@.len(),
            v@ == s@,
            a <= n,
            forall|k: int| 0 <= k < a ==> is_space(v@[k]),
        ensures
            a <= n,
            forall|k: int| 0 <= k < a ==> is_space(v@[k]),
            a < n ==> !is_space(v@[a as int]),
        decreases n - a,
    {
        if a == n {
            break;
        }
        if !is_space_exec(v[a]) {
            break;
        }
        a = a + 1;
    }
    proof {
        lemma_trim_start_skip(s@, a as int);
    }
    let mut b: usize = n;
    if a == n {
        b = a;
        proof {
            assert(trim_start(s@).len() == 0);
            assert(trimmed(s@) =~= s@.subrange(a as int, b as int));
        }
    } else {
        loop
            invariant
                n == v@.len(),
                v@ == s@,
                a < n,
                !is_space(v@[a as int]),
                a < b <= n,
                forall|k: int| b <= k < n ==> is_space(v@[k]),
            ensures
                a < b <= n,
                forall|k: int| b <= k < n ==> is_space(v@[k]),
                !is_space(v@[b - 1]),
            decreases b,
        {
            if !is_space_exec(v[b - 1]) {
                break;
            }
            proof {
                // the non-space at `a` keeps `b` above `a + 1`
                assert(b - 1 != a);
            }
            b = b - 1;
        }
        proof {
            let t = trim_start(s@);
            assert(t == s@.skip(a as int));
            assert(t.len() == n - a);
            assert forall|k: int| (b - a) <= k < t.len() implies is_space(t[k]) by {
                assert(t[k] == s@[k + a]);
            }
            assert(!is_space(t[b - a - 1]));
            lemma_trim_end_take(t, b - a);
            assert(trimmed(s@) =~= s@.subrange(a as int, b as int));
        }
    }
    let mid = string_of(&sub_vec(&v, a, b));
    proof {
        assert(mid@ == trimmed(s@));
    }
    let folded = fold_lower(mid.as_str());
    chars_vec(folded.as_str())
}

/// A key binding from the configuration: a single character with optional
/// `ctrl` or `alt` (`opt`) modifier.
#[derive(Debug, Clone, PartialEq, Eq, Structural)]
pub struct ParsedKey {
    pub key: char,
    pub ctrl: bool,
    pub alt: bool,
}

/// The first `+` of `t` stands at `i`.
pub open spec fn is_first_plus(t: Seq<char>, i: int) -> bool {
    &&& 0 <= i < t.len()
    &&& t[i] == '+'
    &&& forall|k: int| 0 <= k < i ==> t[k] != '+'
}

/// What `ParsedKey::parse` accepts. The string is trimmed of Unicode
/// whitespace and folded through `str::to_lowercase` (the named `lower_of`);
/// the result must be a single ASCII character, or `ctrl`/`alt`/`opt`, a
/// `+`, and a single ASCII character.
pub open spec fn parse_spec(raw: Seq<char>) -> Option<ParsedKey> {
    let t = lower_of(trimmed(raw));
    if !(exists|i: int| is_first_plus(t, i)) {
        if t.len() == 1 && is_ascii_char(t[0]) {
            Some(ParsedKey { key: t[0], ctrl: false, alt: false })
        } else {
            None
        }
    } else {
        let i = choose|i: int| is_first_plus(t, i);
        if exists|q: int| i < q < t.len() && t[q] == '+' {
            None
        } else {
            let m = t.subrange(0, i);
            let k = t.subrange(i + 1, t.len() as int);
            if k.len() == 1 && is_ascii_char(k[0]) {
                if m == "ctrl"@ {
                    Some(ParsedKey { key: k[0], ctrl: true, alt: false })
                } else if m == "alt"@ || m == "opt"@ {
                    Some(ParsedKey { key: k[0], ctrl: false, alt: true })
                } else {
                    None
                }
            } else {
                None
            }
        }
    }
}

impl ParsedKey {
    /// Parses a key binding such as `g`, `ctrl+g`, `alt+r` or `opt+q`.
    pub fn parse(s: &str) -> (r: Option<ParsedKey>)
        ensures
            r == parse_spec(s@),
    {
        let t = normalize(s);
        let n = t.len();
        // find the first '+' and whether a second one follows
        let mut first: usize = n;
        let mut found = false;
        let mut second = false;
        let mut i: usize = 0;
        while i < n
            invariant
                n == t@.len(),
                i <= n,
                !found ==> first == n && forall|k: int| 0 <= k < i ==> t@[k] != '+',
                found ==> is_first_plus(t@, first as int) && first < i,
                second <==> (found && exists|q: int|
                    first < q < i && #[trigger] t@[q] == '+'),
            decreases n - i,
        {
            if t[i] == '+' {
                if !found {
                    found = true;
                    first = i;
                } else if !second {
                    second = true;
                    proof {
                        assert(t@[i as int] == '+');
                    }
                }
            }
            i = i + 1;
        }
        if !found {
            proof {
                assert(!(exists|i: int| is_first_plus(t@, i)));
            }
            if n == 1 && (t[0] as u32) < 128 {
                Some(ParsedKey { key: t[0], ctrl: false, alt: false })
            } else {
                None
            }
        } else {
            proof {
                let w = choose|w: int| is_first_plus(t@, w);
                assert(is_first_plus(t@, first as int));
                if w < first {
                    assert(t@[w] != '+');
                } else if w > first {
                    assert(t@[first as int] != '+');
                }
                assert(w == first as int);
            }
            if second {
                None
            } else {
                proof {
                    assert(!(exists|q: int|
                        first < q < t@.len() && #[trigger] t@[q] == '+'));
                }
                if n - first != 2 {
                    // the key part is not a single character
                    proof {
                        assert(t@.subrange(first as int + 1, n as int).len() != 1);
                    }
                    None
                } else {
                    let kc = t[first + 1];
                    proof {
                        assert(t@.subrange(first as int + 1, n as int).len() == 1);
                        assert(t@.subrange(first as int + 1, n as int)[0] == t@[first as int
                            + 1]);
                    }
                    if !((kc as u32) < 128) {
                        None
                    } else {
                        let m = sub_vec(&t, 0, first);
                        if chars_eq(&m, &chars_vec("ctrl")) {
                            Some(ParsedKey { key: kc, ctrl: true, alt: false })
                        } else if chars_eq(&m, &chars_vec("alt")) || chars_eq(
                            &m,
                            &chars_vec("opt"),
                        ) {
                            Some(ParsedKey { key: kc, ctrl: false, alt: true })
                        } else {
                            None
                        }
                    }
                }
            }
        }
    }

    /// Whether this binding fires on `key`: same character up to ASCII case,
    /// and exactly the required modifiers.
    pub open spec fn matches_spec(self, key: KeyPress) -> bool {
        &&& (match key.code {
            KeyCode::Char(c) => ascii_lower_char(c) == self.key,
            _ => false,
        })
        &&& key.ctrl == self.ctrl
        &&& key.alt == self.alt
    }

    /// Decides `matches_spec`.
    pub fn matches(&self, key: &KeyPress) -> (r: bool)
        ensures
            r == self.matches_spec(*key),
    {
        let code_matches = match key.code {
            KeyCode::Char(c) => lower_char(c) == self.key,
            _ => false,
        };
        code_matches && key.ctrl == self.ctrl && key.alt == self.alt
    }
}

/// One configured custom command.
#[derive(Debug, Clone)]
pub struct CustomCommand {
    /// The key that triggers it, in the syntax `ParsedKey::parse` accepts.
    pub key: String,
    /// The program and its arguments.
    pub cmd: Vec<String>,
}

/// The client's configuration: named custom commands, ordered by name.
#[derive(Debug, Clone)]
pub struct Config {
    pub custom_commands: Vec<(String, CustomCommand)>,
    /// Where the configuration was read from, for display.
    pub config_path: Option<String>,
}

} // verus!
