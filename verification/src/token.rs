//! The tokens of the scripting language.

use crate::debug::SourceLocation;
use vstd::prelude::*;
use vstd::string::StringExecFns;

verus! {

/// The width of a primitive value.
#[derive(Clone, Copy, Debug, PartialEq, Eq, Structural)]
pub enum PrimitiveType {
    _16b,
    _32b,
}

impl PrimitiveType {
    /// The number of bytes of a value of this type.
    pub open spec fn size(&self) -> nat {
        match self {
            PrimitiveType::_16b => 2,
            PrimitiveType::_32b => 4,
        }
    }

    /// A value of this type whose bytes are all null.
    pub fn as_empty_bytes(&self) -> (bytes: Vec<u8>)
        ensures
            bytes@ == Seq::new(self.size(), |i: int| 0u8),
    {
        let bytes: Vec<u8> = match self {
            PrimitiveType::_16b => vec![0u8, 0u8],
            PrimitiveType::_32b => vec![0u8, 0u8, 0u8, 0u8],
        };
        assert(bytes@ =~= Seq::new(self.size(), |i: int| 0u8));
        bytes
    }
}

/// What a token is.
#[derive(Debug)]
pub enum TokenKind {
    /// An identifier: letters and underscores, then also digits and `@`.
    Identifier(String),
    PrimitiveType(PrimitiveType),
    /// The keyword `ret`.
    Return,
    /// The keyword for a function of the host.
    Extern,
    /// One of the comparisons `%eq`, `%gt`, `%lt`, `%gte`, `%lte`.
    ComparisonKind,
    /// The keyword `emp`, which declares an empty variable.
    Emp,
}

/// The kind of the token that the word `identifier` is: a keyword where it
/// is one, else an identifier.
pub open spec fn kind_of_word(identifier: String) -> TokenKind {
    if identifier@ == "ret"@ {
        TokenKind::Return
    } else if identifier@ == "emp"@ {
        TokenKind::Emp
    } else if identifier@ == "extern"@ {
        TokenKind::Extern
    } else {
        TokenKind::Identifier(identifier)
    }
}

impl TokenKind {
    /// Tell the keywords from the identifiers.
    pub fn from_identifier(identifier: String) -> (kind: TokenKind)
        ensures
            kind == kind_of_word(identifier),
    {
        if identifier == String::from_str("ret") {
            TokenKind::Return
        } else if identifier == String::from_str("emp") {
            TokenKind::Emp
        } else if identifier == String::from_str("extern") {
            TokenKind::Extern
        } else {
            TokenKind::Identifier(identifier)
        }
    }
}

/// A token and the place where it was read.
#[derive(Debug)]
pub struct Token {
    kind: TokenKind,
    source_location: SourceLocation,
}

impl Token {
    /// What this token is.
    pub closed spec fn kind(&self) -> &TokenKind {
        &self.kind
    }

    /// Where this token was read.
    pub closed spec fn source_location(&self) -> SourceLocation {
        self.source_location
    }

    /// Get what this token is.
    pub fn get_kind(&self) -> (kind: &TokenKind)
        ensures
            kind == self.kind(),
    {
        &self.kind
    }

    /// Create a new Token.
    pub fn new(kind: TokenKind, source_location: SourceLocation) -> (token: Token)
        ensures
            *token.kind() == kind,
            token.source_location() == source_location,
    {
        Token { kind, source_location }
    }
}

} // verus!
