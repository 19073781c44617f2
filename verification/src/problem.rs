//! Everything that can be wrong with a module, each with the place where it was
//! noticed.

use crate::region::{Col, Region, Row};
use vstd::prelude::*;

verus! {

/// Input that is wrong wherever it stands.
#[derive(Debug, Clone, Copy, PartialEq, Eq, Structural)]
pub enum BadInputError {
    HasTab,
    LineTooLong,
    TooManyLines,
    BadUtf8,
}

/// What is wrong with a single token.
#[derive(Debug, Clone, Copy, PartialEq, Eq, Structural)]
pub enum SyntaxError {
    /// Other text was needed in this region.
    Unexpected(Region),
    /// More text was needed.
    Eof(Region),
    /// The bytes are no UTF-8.
    BadUtf8,
    /// The line does not fit the columns that can be counted.
    LineTooLong(Row),
    /// Blank space holds something that it may not.
    Space(BadInputError, Row, Col),
    /// A line starts too far to the left.
    OutdentedTooFar(Row, Col),
    /// There is text behind the last definition.
    NotEndOfFile(Row, Col),
}

/// What is wrong with a module header: one of its tokens, or one of its parts.
#[derive(Debug, Clone, Copy, PartialEq)]
pub enum HeaderError<H> {
    Syntax(SyntaxError),
    Header(H),
}

/// What is wrong with the definitions of a module.
#[derive(Debug, Clone, Copy, PartialEq)]
pub enum DefsError<D> {
    Syntax(SyntaxError),
    Def(D),
}

/// What is wrong with the part of a header that a place belongs to. `S` is what
/// can be wrong with a string literal, `T` what can be wrong with a type.
#[derive(Debug, Clone, Copy, PartialEq)]
pub enum EHeader<S, T> {
    Provides(EProvides, Row, Col),
    Exposes(EExposes, Row, Col),
    Imports(EImports, Row, Col),
    Requires(ERequires<T>, Row, Col),
    Packages(EPackages, Row, Col),
    Effects(EEffects<T>, Row, Col),
    Space(BadInputError, Row, Col),
    ModuleName(Row, Col),
    AppName(S, Row, Col),
    PlatformName(Row, Col),
    IndentStart(Row, Col),
}

#[derive(Debug, Clone, Copy, PartialEq, Eq, Structural)]
pub enum EProvides {
    Provides(Row, Col),
    To(Row, Col),
    IndentProvides(Row, Col),
    IndentTo(Row, Col),
    IndentListStart(Row, Col),
    IndentListEnd(Row, Col),
    ListStart(Row, Col),
    ListEnd(Row, Col),
    Identifier(Row, Col),
    Package(Row, Col),
    Space(BadInputError, Row, Col),
}

#[derive(Debug, Clone, Copy, PartialEq, Eq, Structural)]
pub enum EExposes {
    Exposes(Row, Col),
    IndentExposes(Row, Col),
    IndentListStart(Row, Col),
    IndentListEnd(Row, Col),
    ListStart(Row, Col),
    ListEnd(Row, Col),
    Identifier(Row, Col),
    Space(BadInputError, Row, Col),
}

#[derive(Debug, Clone, Copy, PartialEq)]
pub enum ERequires<T> {
    Requires(Row, Col),
    IndentRequires(Row, Col),
    IndentListStart(Row, Col),
    IndentListEnd(Row, Col),
    ListStart(Row, Col),
    ListEnd(Row, Col),
    TypedIdent(ETypedIdent<T>, Row, Col),
    Space(BadInputError, Row, Col),
}

#[derive(Debug, Clone, Copy, PartialEq)]
pub enum ETypedIdent<T> {
    Space(BadInputError, Row, Col),
    HasType(Row, Col),
    IndentHasType(Row, Col),
    Identifier(Row, Col),
    Type(T, Row, Col),
    IndentType(Row, Col),
}

#[derive(Debug, Clone, Copy, PartialEq, Eq, Structural)]
pub enum EPackages {
    Packages(Row, Col),
    IndentPackages(Row, Col),
    IndentListStart(Row, Col),
    IndentListEnd(Row, Col),
    ListStart(Row, Col),
    ListEnd(Row, Col),
    PackageEntry(Row, Col),
    Space(BadInputError, Row, Col),
}

#[derive(Debug, Clone, Copy, PartialEq)]
pub enum EEffects<T> {
    Effects(Row, Col),
    IndentEffects(Row, Col),
    Shorthand(Row, Col),
    ShorthandDot(Row, Col),
    TypeName(Row, Col),
    IndentListStart(Row, Col),
    IndentListEnd(Row, Col),
    ListStart(Row, Col),
    ListEnd(Row, Col),
    TypedIdent(ETypedIdent<T>, Row, Col),
    Space(BadInputError, Row, Col),
}

#[derive(Debug, Clone, Copy, PartialEq, Eq, Structural)]
pub enum EImports {
    Imports(Row, Col),
    IndentImports(Row, Col),
    IndentListStart(Row, Col),
    IndentListEnd(Row, Col),
    ListStart(Row, Col),
    ListEnd(Row, Col),
    Identifier(Row, Col),
    ExposingDot(Row, Col),
    ShorthandDot(Row, Col),
    Shorthand(Row, Col),
    ModuleName(Row, Col),
    Space(BadInputError, Row, Col),
    SetStart(Row, Col),
    SetEnd(Row, Col),
    IndentSetEnd(Row, Col),
}

/// What is wrong with blank space.
#[derive(Debug, Clone, Copy, PartialEq, Eq, Structural)]
pub enum SpaceProblem {
    /// It holds something that it may not, at this place.
    Space(BadInputError, Row, Col),
    /// It starts at this place, and ends in a line that starts too far to the
    /// left.
    Indent(Row, Col),
}

/// What is wrong with a keyword and the blank space around it.
#[derive(Debug, Clone, Copy, PartialEq, Eq, Structural)]
pub enum KeywordProblem {
    /// The keyword is not there.
    Expectation(Row, Col),
    Space(BadInputError, Row, Col),
    /// The keyword stands too far to the left.
    IndentBefore(Row, Col),
    /// What follows the keyword stands too far to the left.
    IndentAfter(Row, Col),
}

/// What is wrong with a bracketed list. `E` is what can be wrong with an entry.
#[derive(Debug, Clone, Copy, PartialEq)]
pub enum ListProblem<E> {
    /// The opening bracket is not there.
    Start(Row, Col),
    /// Neither the delimiter nor the closing bracket is there.
    End(Row, Col),
    Space(BadInputError, Row, Col),
    /// An entry, or what follows it, stands too far to the left.
    Indent(Row, Col),
    /// An entry is wrong.
    Entry(E, Row, Col),
}

/// What is wrong with the name of a package that an app is provided to.
#[derive(Debug, Clone, Copy, PartialEq)]
pub enum ToProblem<P> {
    Existing(SyntaxError),
    New(P),
}

} // verus!
