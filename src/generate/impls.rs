//! Turning raw schema and property names into identifiers.
use vstd::prelude::*;
use crate::generate::syntax::{
    camel_case_of, parse_ident, parse_type, parses_as_ident, parses_as_type, snake_case_of,
    to_camel_case, to_snake_case,
};
use crate::generate::types::{FieldName, RustType, TypeIdent, TypeName};

verus! {

#[derive(Debug)]
pub enum Error {
    /// The name does not make a valid identifier or type.
    SynError { token: String },
}

impl Error {
    /// The name that could not be made an identifier.
    pub open spec fn token(&self) -> Seq<char> {
        match self {
            Error::SynError { token } => token@,
        }
    }
}

/// What stands for one character of a raw name: `@` becomes `at_` and `/`
/// becomes `_`.
pub open spec fn char_replacement(c: char) -> Seq<char> {
    if c == '@' {
        seq!['a', 't', '_']
    } else if c == '/' {
        seq!['_']
    } else {
        seq![c]
    }
}

/// `s` with the characters that identifiers cannot hold replaced.
pub open spec fn sanitized(s: Seq<char>) -> Seq<char>
    decreases s.len(),
{
    if s.len() == 0 {
        Seq::empty()
    } else {
        sanitized(s.drop_last()) + char_replacement(s.last())
    }
}

pub fn sanitize(s: &str) -> (r: String)
    ensures
        r@ == sanitized(s@),
{
    let n = s.unicode_len();
    let mut out = String::new();
    let mut i: usize = 0;
    proof {
        reveal_strlit("at_");
        reveal_strlit("_");
    }
    while i < n
        invariant
            n == s@.len(),
            i <= n,
            out@ == sanitized(s@.subrange(0, i as int)),
            "at_".view() == seq!['a', 't', '_'],
            "_".view() == seq!['_'],
        decreases n - i,
    {
        assert(s@.subrange(0, i + 1).drop_last() =~= s@.subrange(0, i as int));
        let c = s.get_char(i);
        if c == '@' {
            out.append("at_");
        } else if c == '/' {
            out.append("_");
        } else {
            out.append(s.substring_char(i, i + 1));
            assert(s@.subrange(i as int, i + 1) =~= seq![c]);
        }
        i = i + 1;
    }
    assert(s@.subrange(0, n as int) =~= s@);
    out
}

/// The type-like identifier made of `raw`.
pub open spec fn type_ident_text(raw: Seq<char>) -> Seq<char> {
    camel_case_of(sanitized(raw))
}

pub open spec fn valid_type_ident(raw: Seq<char>) -> bool {
    parses_as_ident(type_ident_text(raw))
}

/// The field-like identifier made of `raw`, written as a raw identifier
/// where the plain one is a keyword.
pub open spec fn field_ident_text(raw: Seq<char>) -> Seq<char> {
    let base = snake_case_of(sanitized(raw));
    if parses_as_ident(base) {
        base
    } else {
        seq!['r', '#'] + base
    }
}

pub open spec fn valid_field_name(raw: Seq<char>) -> bool {
    parses_as_ident(field_ident_text(raw))
}

impl TypeIdent {
    pub fn try_from(value: &str) -> (r: Result<TypeIdent, Error>)
        ensures
            r is Ok <==> valid_type_ident(value@),
            r matches Ok(t) ==> t.raw@ == value@ && t.ident@ == type_ident_text(value@),
            r matches Err(e) ==> e.token() == value@,
    {
        let sanitized_ident = to_camel_case(sanitize(value).as_str());
        if parse_ident(sanitized_ident.as_str()) {
            Ok(TypeIdent { raw: value.to_owned(), ident: sanitized_ident })
        } else {
            Err(Error::SynError { token: value.to_owned() })
        }
    }
}

impl FieldName {
    pub fn try_from(value: &str) -> (r: Result<FieldName, Error>)
        ensures
            r is Ok <==> valid_field_name(value@),
            r matches Ok(f) ==> f.raw@ == value@ && f.ident@ == field_ident_text(value@),
            r matches Err(e) ==> e.token() == value@,
    {
        let sanitized_ident = to_snake_case(sanitize(value).as_str());
        if parse_ident(sanitized_ident.as_str()) {
            return Ok(FieldName { raw: value.to_owned(), ident: sanitized_ident });
        }
        let mut escaped = String::from_str("r#");
        proof {
            reveal_strlit("r#");
        }
        escaped.append(sanitized_ident.as_str());
        assert(escaped@ =~= seq!['r', '#'] + sanitized_ident@);
        if parse_ident(escaped.as_str()) {
            Ok(FieldName { raw: value.to_owned(), ident: escaped })
        } else {
            Err(Error::SynError { token: value.to_owned() })
        }
    }
}

impl TypeName {
    pub fn try_from(value: &str) -> (r: Result<TypeName, Error>)
        ensures
            r is Ok <==> parses_as_type(value@),
            r matches Ok(t) ==> t.raw@ == value@ && t.ident@ == value@,
            r matches Err(e) ==> e.token() == value@,
    {
        if parse_type(value) {
            Ok(TypeName { raw: value.to_owned(), ident: value.to_owned() })
        } else {
            Err(Error::SynError { token: value.to_owned() })
        }
    }
}

impl RustType {
    pub fn name(&self) -> (r: String)
        ensures
            r@ == crate::generate::types::decl_name(self@),
    {
        match self {
            RustType::PlainEnum { name, .. } => name.ident.clone(),
            RustType::DataEnum { name, .. } => name.ident.clone(),
            RustType::Struct { name, .. } => name.ident.clone(),
        }
    }
}

} // verus!
