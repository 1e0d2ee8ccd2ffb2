use vstd::prelude::*;
use crate::text::{pos_of, lemma_pos_of, chars_of, find_char, owned, has_space, is_space, any_space};

verus! {

/// Why a package specifier token was refused.
#[derive(Clone, Copy, Debug, PartialEq, Eq, Structural)]
pub enum SpecError {
    /// The token is empty.
    Empty,
    /// The token holds a whitespace character.
    Whitespace,
    /// The token starts with `=`: a version with no package name.
    MissingName,
    /// The token ends with its first `=`: a name with an empty version.
    MissingVersion,
    /// The version part holds another `=`.
    ExtraSeparator,
}

/// A requested package: a name, and the exact version wanted, if any.
#[derive(Clone, Debug)]
pub struct KrateName {
    pub name: String,
    pub version: Option<String>,
}

pub open spec fn opt_view(v: Option<String>) -> Option<Seq<char>> {
    match v {
        Some(s) => Some(s@),
        None => None,
    }
}

impl View for KrateName {
    type V = (Seq<char>, Option<Seq<char>>);

    open spec fn view(&self) -> (Seq<char>, Option<Seq<char>>) {
        (self.name@, opt_view(self.version))
    }
}

/// A name or version part: not empty, without `=` and without whitespace.
pub open spec fn is_field(s: Seq<char>) -> bool {
    s.len() > 0 && !s.contains('=') && !has_space(s)
}

/// A well-formed specifier: its name is a field, and so is its version if present.
pub open spec fn valid_spec(k: (Seq<char>, Option<Seq<char>>)) -> bool {
    &&& is_field(k.0)
    &&& match k.1 {
        Some(v) => is_field(v),
        None => true,
    }
}

/// The token that stands for a specifier: `name`, or `name=version`.
pub open spec fn token_text(k: (Seq<char>, Option<Seq<char>>)) -> Seq<char> {
    match k.1 {
        Some(v) => k.0 + seq!['='] + v,
        None => k.0,
    }
}

/// What a token parses to: the name is everything before the first `=`, the
/// version everything after it.
pub open spec fn parse_token(t: Seq<char>) -> Result<(Seq<char>, Option<Seq<char>>), SpecError> {
    let i = pos_of(t, '=') as int;
    if t.len() == 0 {
        Err(SpecError::Empty)
    } else if has_space(t) {
        Err(SpecError::Whitespace)
    } else if i == t.len() {
        Ok((t, None))
    } else if i == 0 {
        Err(SpecError::MissingName)
    } else if i + 1 == t.len() {
        Err(SpecError::MissingVersion)
    } else if t.skip(i + 1).contains('=') {
        Err(SpecError::ExtraSeparator)
    } else {
        Ok((t.take(i), Some(t.skip(i + 1))))
    }
}

impl KrateName {
    /// The specifier as a token: `name`, or `name=version`.
    pub fn to_string(&self) -> (r: String)
        ensures
            r@ == token_text(self@),
    {
        let mut r = owned(self.name.as_str());
        match &self.version {
            Some(v) => {
                proof {
                    reveal_strlit("=");
                }
                r.append("=");
                r.append(v.as_str());
                proof {
                    assert(r@ =~= token_text(self@));
                }
            },
            None => {},
        }
        r
    }

    /// Parses one token, `name` or `name=version`.
    pub fn parse(token: &str) -> (r: Result<KrateName, SpecError>)
        ensures
            match r {
                Ok(k) => parse_token(token@) == Ok::<_, SpecError>(k@),
                Err(e) => parse_token(token@) == Err::<(Seq<char>, Option<Seq<char>>), _>(e),
            },
    {
        let cs = chars_of(token);
        let n = cs.len();
        if n == 0 {
            return Err(SpecError::Empty);
        }
        if any_space(&cs) {
            return Err(SpecError::Whitespace);
        }
        let i = find_char(&cs, 0, '=');
        proof {
            assert(cs@.skip(0) =~= cs@);
        }
        if i == n {
            return Ok(KrateName { name: owned(token), version: None });
        }
        if i == 0 {
            return Err(SpecError::MissingName);
        }
        if i + 1 == n {
            return Err(SpecError::MissingVersion);
        }
        let j = find_char(&cs, i + 1, '=');
        proof {
            lemma_pos_of(cs@.skip(i + 1), '=');
        }
        if j < n {
            return Err(SpecError::ExtraSeparator);
        }
        let name = owned(token.substring_char(0, i));
        let version = owned(token.substring_char(i + 1, n));
        proof {
            assert(name@ =~= token@.take(i as int));
            assert(version@ =~= token@.skip(i + 1));
        }
        Ok(KrateName { name, version: Some(version) })
    }
}

/// Formatting a well-formed specifier and parsing the token gives the specifier back.
pub proof fn lemma_format_then_parse(k: (Seq<char>, Option<Seq<char>>))
    requires
        valid_spec(k),
    ensures
        parse_token(token_text(k)) == Ok::<_, SpecError>(k),
{
    let t = token_text(k);
    lemma_pos_of(k.0, '=');
    assert(!has_space(t)) by {
        if has_space(t) {
            let i = choose|i: int| 0 <= i < t.len() && is_space(#[trigger] t[i]);
            if i < k.0.len() {
                assert(t[i] == k.0[i]);
            } else if i > k.0.len() {
                let v = k.1->Some_0;
                assert(t[i] == v[i - k.0.len() - 1]);
            }
        }
    }
    match k.1 {
        None => {
            lemma_pos_of(t, '=');
        },
        Some(v) => {
            assert(t.take(k.0.len() as int) =~= k.0);
            assert(t.skip(k.0.len() + 1int) =~= v);
            lemma_pos_prefix(k.0, seq!['='] + v, '=');
            assert(k.0 + (seq!['='] + v) =~= t);
            assert((seq!['='] + v)[0] == '=');
        },
    }
}

/// With no `c` in `a`, the first `c` of `a + b` is that of `b`, shifted.
pub proof fn lemma_pos_prefix(a: Seq<char>, b: Seq<char>, c: char)
    requires
        !a.contains(c),
    ensures
        pos_of(a + b, c) == a.len() + pos_of(b, c),
    decreases a.len(),
{
    if a.len() > 0 {
        assert(a[0] != c);
        assert((a + b).drop_first() =~= a.drop_first() + b);
        assert(!a.drop_first().contains(c)) by {
            if a.drop_first().contains(c) {
                let k = choose|k: int| 0 <= k < a.drop_first().len() && a.drop_first()[k] == c;
                assert(a[k + 1] == c);
            }
        }
        lemma_pos_prefix(a.drop_first(), b, c);
    } else {
        assert(a + b =~= b);
    }
}

/// A token that parses gives a well-formed specifier, and formatting it gives the
/// token back.
pub proof fn lemma_parse_then_format(t: Seq<char>)
    requires
        parse_token(t) is Ok,
    ensures
        valid_spec(parse_token(t)->Ok_0),
        token_text(parse_token(t)->Ok_0) == t,
{
    let i = pos_of(t, '=') as int;
    lemma_pos_of(t, '=');
    if i < t.len() {
        let name = t.take(i);
        assert(!name.contains('=')) by {
            if name.contains('=') {
                let k = choose|k: int| 0 <= k < name.len() && name[k] == '=';
                assert(t[k] == '=');
            }
        }
        assert(name + seq!['='] + t.skip(i + 1) =~= t);
        let v = t.skip(i + 1);
        assert(!has_space(name)) by {
            if has_space(name) {
                let k = choose|k: int| 0 <= k < name.len() && is_space(#[trigger] name[k]);
                assert(t[k] == name[k]);
            }
        }
        assert(!has_space(v)) by {
            if has_space(v) {
                let k = choose|k: int| 0 <= k < v.len() && is_space(#[trigger] v[k]);
                assert(t[k + i + 1] == v[k]);
            }
        }
    }
}

/// An empty token, or one that starts with `=`, is refused.
pub proof fn lemma_malformed_refused(t: Seq<char>)
    requires
        t.len() == 0 || t[0] == '=',
    ensures
        parse_token(t) is Err,
{
}

} // verus!
