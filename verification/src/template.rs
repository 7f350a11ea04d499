//! Data model for template elements' properties and directives.
//!
//! These types describe what a template parser attaches to an element: plain
//! attributes, and directives of the form `v-name:arg.mod1.mod2="expr"`. The
//! methods here answer simple questions about them — where a property sits
//! in the source, and whether a directive's expression is empty.

use vstd::prelude::*;

verus! {

/// A position in the parsed source.
#[derive(Clone, Copy, PartialEq, Eq, Structural, Debug)]
pub struct Position {
    pub offset: usize,
    pub line: usize,
    pub column: usize,
}

/// The span of source text an item was parsed from.
#[derive(Clone, Copy, PartialEq, Eq, Structural, Debug)]
pub struct SourceLocation {
    pub start: Position,
    pub end: Position,
}

/// A node that carries its source text verbatim: an interpolation or a
/// comment.
pub struct SourceNode {
    pub source: String,
    pub location: SourceLocation,
}

/// The value of a plain attribute.
pub struct AttributeValue {
    pub content: String,
    pub location: SourceLocation,
}

/// A plain attribute `name="value"`.
pub struct Attribute {
    pub name: String,
    pub value: Option<AttributeValue>,
    pub name_loc: SourceLocation,
    pub location: SourceLocation,
}

/// What went wrong while parsing a template.
#[derive(Clone, Copy, PartialEq, Eq, Structural, Debug)]
pub enum CompilationErrorKind {
    MissingEndTag,
    InvalidEndTag,
    EofInScriptHtmlCommentLikeText,
    MissingDirectiveName,
    MissingDirectiveArg,
    MissingDirectiveMod,
    MissingDynamicDirectiveArgumentEnd,
    InvalidVSlotModifier,
    UnexpectedContentAfterDynamicDirective,
}

/// An error with the location it was detected at.
pub struct CompilationError {
    pub kind: CompilationErrorKind,
    pub location: SourceLocation,
}

impl CompilationError {
    /// An error of the given kind, located nowhere yet.
    pub fn new(kind: CompilationErrorKind) -> (r: Self)
        ensures
            r.kind == kind,
            r.location == (SourceLocation {
                start: Position { offset: 0, line: 0, column: 0 },
                end: Position { offset: 0, line: 0, column: 0 },
            }),
    {
        CompilationError {
            kind,
            location: SourceLocation {
                start: Position { offset: 0, line: 0, column: 0 },
                end: Position { offset: 0, line: 0, column: 0 },
            },
        }
    }

    /// The same error, placed at `location`.
    pub fn with_location(self, location: SourceLocation) -> (r: Self)
        ensures
            r.kind == self.kind,
            r.location == location,
    {
        CompilationError { kind: self.kind, location }
    }
}

/// What kind of element a tag was parsed into.
#[derive(PartialEq, Eq, Structural, Debug)]
pub enum ElementType {
    Plain,
    Component,
    Template,
    SlotOutlet,
}

/// The argument of a directive: `:static="val"` or `:[dynamic]="val"`.
pub enum DirectiveArg {
    Static(String),
    Dynamic(String),
}

/// A directive `v-name:arg.mod1.mod2="expr"`.
pub struct Directive {
    pub name: String,
    pub argument: Option<DirectiveArg>,
    pub modifiers: Vec<String>,
    pub expression: Option<AttributeValue>,
    pub head_loc: SourceLocation,
    pub location: SourceLocation,
}

/// An ASCII whitespace character.
pub open spec fn is_whitespace_char(c: char) -> bool {
    c == ' ' || c == '\t' || c == '\n' || c == '\u{c}' || c == '\r'
}

/// Every character of `s` is whitespace.
pub open spec fn all_whitespace(s: Seq<char>) -> bool {
    forall|i: int| 0 <= i < s.len() ==> is_whitespace_char(#[trigger] s[i])
}

impl Directive {
    /// An expression is empty when it is absent or all whitespace.
    pub open spec fn spec_has_empty_expr(&self) -> bool {
        match self.expression {
            None => true,
            Some(v) => all_whitespace(v.content@),
        }
    }

    pub fn has_empty_expr(&self) -> (r: bool)
        ensures
            r == self.spec_has_empty_expr(),
    {
        match &self.expression {
            None => true,
            Some(v) => {
                let s = v.content.as_str();
                let len = s.unicode_len();
                let mut i: usize = 0;
                while i < len
                    invariant
                        i <= len,
                        len == s@.len(),
                        match self.expression {
                            Some(av) => av.content@ == s@,
                            None => false,
                        },
                        forall|j: int| 0 <= j < i ==> is_whitespace_char(#[trigger] s@[j]),
                    decreases len - i,
                {
                    let c = s.get_char(i);
                    if !(c == ' ' || c == '\t' || c == '\n' || c == '\u{c}' || c == '\r') {
                        proof {
                            assert(!is_whitespace_char(s@[i as int]));
                        }
                        return false;
                    }
                    i += 1;
                }
                true
            },
        }
    }

    /// Returns the error exactly when the expression is empty, placed at the
    /// expression's location when there is one, else at the directive
    /// head's.
    pub fn check_empty_expr(&self, kind: CompilationErrorKind) -> (r: Option<CompilationError>)
        ensures
            match r {
                None => !self.spec_has_empty_expr(),
                Some(e) => {
                    &&& self.spec_has_empty_expr()
                    &&& e.kind == kind
                    &&& e.location == (match self.expression {
                        Some(v) => v.location,
                        None => self.head_loc,
                    })
                },
            },
    {
        if !self.has_empty_expr() {
            return None;
        }
        let loc = match &self.expression {
            Some(v) => v.location,
            None => self.head_loc,
        };
        Some(CompilationError::new(kind).with_location(loc))
    }
}

/// A property attached to an element: a plain attribute or a directive.
pub enum ElemProp {
    Attr(Attribute),
    Dir(Directive),
}

impl ElemProp {
    /// The source span of the property, whichever form it takes.
    pub fn get_location(&self) -> (r: &SourceLocation)
        ensures
            *r == (match self {
                ElemProp::Attr(a) => a.location,
                ElemProp::Dir(d) => d.location,
            }),
    {
        match self {
            ElemProp::Attr(a) => &a.location,
            ElemProp::Dir(d) => &d.location,
        }
    }
}

/// How whitespace-only text nodes are treated.
#[derive(Clone, Debug)]
pub enum WhitespaceStrategy {
    Preserve,
    Condense,
}

impl Default for WhitespaceStrategy {
    fn default() -> (r: Self)
        ensures
            r is Condense,
    {
        WhitespaceStrategy::Condense
    }
}

/// Whether a directive name is one of the five that make a `<template>` tag
/// a real template element: `if`, `else-if`, `else`, `for` and `slot`.
pub fn is_special_template_directive(n: &str) -> (r: bool)
    ensures
        r == (n@ == "if"@ || n@ == "for"@ || n@ == "else"@ || n@ == "slot"@ || n@ == "else-if"@),
{
    proof {
        reveal_strlit("if");
        reveal_strlit("for");
        reveal_strlit("else");
        reveal_strlit("slot");
        reveal_strlit("else-if");
    }
    // only five candidates; their lengths separate them
    let len = n.unicode_len();
    if len == 2 {
        crate::node::str_eq(n, "if")
    } else if len == 3 {
        crate::node::str_eq(n, "for")
    } else if len == 4 {
        crate::node::str_eq(n, "else") || crate::node::str_eq(n, "slot")
    } else if len == 7 {
        crate::node::str_eq(n, "else-if")
    } else {
        false
    }
}

} // verus!
