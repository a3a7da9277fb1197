//! What a parse reports when it fails.
use crate::rule::{rule_name, Rule};
use crate::semantics::{Attempt, Furthest};
use crate::tree::Span;
use vstd::prelude::*;
use vstd::string::StringExecFns;

verus! {

/// Why a template was turned down.
#[derive(Debug)]
pub enum Error {
    /// The input matches no alternative of the grammar at `position`, the
    /// furthest that any attempt came; `tried` are the rules tried there.
    Syntax { position: usize, tried: Vec<Attempt> },
    /// The input ends inside a tag: its closing braces are missing.
    UnterminatedTag { position: usize, tried: Vec<Attempt> },
    /// The input ends where the closing tag of a block was due.
    UnterminatedBlock { position: usize, tried: Vec<Attempt> },
    /// A literal was begun and does not go on as a literal may.
    InvalidLiteral { position: usize, tried: Vec<Attempt> },
    /// A block is closed under another name than it was opened with.
    MismatchedBlockName { opened: Span, closed: Span, opened_name: Vec<u8>, closed_name: Vec<u8> },
    /// Rules are nested deeper than allowed.
    DepthExceeded,
}

/// An [`Error`] as a mathematical value.
pub enum Fault {
    Syntax { position: int, tried: Seq<Attempt> },
    UnterminatedTag { position: int, tried: Seq<Attempt> },
    UnterminatedBlock { position: int, tried: Seq<Attempt> },
    InvalidLiteral { position: int, tried: Seq<Attempt> },
    MismatchedBlockName { opened: Span, closed: Span, opened_name: Seq<u8>, closed_name: Seq<u8> },
    DepthExceeded,
}

impl View for Error {
    type V = Fault;

    open spec fn view(&self) -> Fault {
        match *self {
            Error::Syntax { position, tried } => Fault::Syntax {
                position: position as int,
                tried: tried@,
            },
            Error::UnterminatedTag { position, tried } => Fault::UnterminatedTag {
                position: position as int,
                tried: tried@,
            },
            Error::UnterminatedBlock { position, tried } => Fault::UnterminatedBlock {
                position: position as int,
                tried: tried@,
            },
            Error::InvalidLiteral { position, tried } => Fault::InvalidLiteral {
                position: position as int,
                tried: tried@,
            },
            Error::MismatchedBlockName {
                opened,
                closed,
                opened_name,
                closed_name,
            } => Fault::MismatchedBlockName {
                opened,
                closed,
                opened_name: opened_name@,
                closed_name: closed_name@,
            },
            Error::DepthExceeded => Fault::DepthExceeded,
        }
    }
}

/// The rules of literals.
pub open spec fn spec_is_literal_rule(r: Rule) -> bool {
    r == Rule::literal || r == Rule::string_literal || r == Rule::array_literal || r
        == Rule::object_literal || r == Rule::number_literal || r == Rule::null_literal || r
        == Rule::boolean_literal
}

/// The rules of literals.
#[verifier::when_used_as_spec(spec_is_literal_rule)]
pub fn is_literal_rule(r: Rule) -> (b: bool)
    ensures
        b == spec_is_literal_rule(r),
{
    matches!(
        r,
        Rule::literal | Rule::string_literal | Rule::array_literal | Rule::object_literal
            | Rule::number_literal | Rule::null_literal | Rule::boolean_literal
    )
}

/// The rules of the tags that close a block.
pub open spec fn spec_is_closing_rule(r: Rule) -> bool {
    r == Rule::helper_block_end || r == Rule::decorator_block_end || r == Rule::partial_block_end
        || r == Rule::raw_block_end
}

/// The rules of the tags that close a block.
#[verifier::when_used_as_spec(spec_is_closing_rule)]
pub fn is_closing_rule(r: Rule) -> (b: bool)
    ensures
        b == spec_is_closing_rule(r),
{
    matches!(
        r,
        Rule::helper_block_end | Rule::decorator_block_end | Rule::partial_block_end
            | Rule::raw_block_end
    )
}

/// The rules of tags and comments: what stands between braces.
pub open spec fn spec_is_tag_rule(r: Rule) -> bool {
    r == Rule::expression || r == Rule::html_expression || r == Rule::decorator_expression || r
        == Rule::partial_expression || r == Rule::invert_tag || r == Rule::helper_block_start || r
        == Rule::helper_block_end || r == Rule::decorator_block_start || r
        == Rule::decorator_block_end || r == Rule::partial_block_start || r
        == Rule::partial_block_end || r == Rule::raw_block_start || r == Rule::raw_block_end || r
        == Rule::hbs_comment || r == Rule::hbs_comment_compact
}

/// The rules of tags and comments: what stands between braces.
#[verifier::when_used_as_spec(spec_is_tag_rule)]
pub fn is_tag_rule(r: Rule) -> (b: bool)
    ensures
        b == spec_is_tag_rule(r),
{
    matches!(
        r,
        Rule::expression | Rule::html_expression | Rule::decorator_expression
            | Rule::partial_expression | Rule::invert_tag | Rule::helper_block_start
            | Rule::helper_block_end | Rule::decorator_block_start | Rule::decorator_block_end
            | Rule::partial_block_start | Rule::partial_block_end | Rule::raw_block_start
            | Rule::raw_block_end | Rule::hbs_comment | Rule::hbs_comment_compact
    )
}

/// A literal that had begun before the furthest failure was being tried
/// there.
pub open spec fn inside_literal(f: Furthest) -> bool {
    exists|i: int|
        0 <= i < f.tried.len() && is_literal_rule((#[trigger] f.tried[i]).rule) && f.tried[i].since
            < f.at
}

/// A tag that closes a block was being tried at the furthest failure.
pub open spec fn wants_closing(f: Furthest) -> bool {
    exists|i: int| 0 <= i < f.tried.len() && is_closing_rule((#[trigger] f.tried[i]).rule)
}

/// A tag that had begun before the furthest failure was being tried there.
pub open spec fn inside_tag(f: Furthest) -> bool {
    exists|i: int|
        0 <= i < f.tried.len() && is_tag_rule((#[trigger] f.tried[i]).rule) && f.tried[i].since
            < f.at
}

/// What is reported of a parse of `len` bytes that failed with the
/// furthest failure `f`.
pub open spec fn fault(f: Furthest, len: int) -> Fault {
    if inside_literal(f) {
        Fault::InvalidLiteral { position: f.at, tried: f.tried }
    } else if f.at == len && wants_closing(f) {
        Fault::UnterminatedBlock { position: f.at, tried: f.tried }
    } else if f.at == len && inside_tag(f) {
        Fault::UnterminatedTag { position: f.at, tried: f.tried }
    } else {
        Fault::Syntax { position: f.at, tried: f.tried }
    }
}

/// The report of a parse of `len` bytes that failed furthest at `at`, where
/// `tried` was being tried.
pub fn failure(at: usize, tried: Vec<Attempt>, len: usize) -> (e: Error)
    ensures
        e@ == fault(Furthest { at: at as int, tried: tried@ }, len as int),
{
    let ghost f = Furthest { at: at as int, tried: tried@ };
    let n: usize = tried.len();
    let mut literal = false;
    let mut closing = false;
    let mut tag = false;
    let mut i: usize = 0;
    while i < n
        invariant
            i <= n,
            n == tried@.len(),
            f == (Furthest { at: at as int, tried: tried@ }),
            literal <==> exists|j: int|
                0 <= j < i && is_literal_rule((#[trigger] f.tried[j]).rule) && f.tried[j].since
                    < f.at,
            closing <==> exists|j: int|
                0 <= j < i && is_closing_rule((#[trigger] f.tried[j]).rule),
            tag <==> exists|j: int|
                0 <= j < i && is_tag_rule((#[trigger] f.tried[j]).rule) && f.tried[j].since < f.at,
        decreases n - i,
    {
        let a = tried[i];
        if is_literal_rule(a.rule) && a.since < at {
            literal = true;
        }
        if is_closing_rule(a.rule) {
            closing = true;
        }
        if is_tag_rule(a.rule) && a.since < at {
            tag = true;
        }
        i = i + 1;
    }
    if literal {
        Error::InvalidLiteral { position: at, tried }
    } else if at == len && closing {
        Error::UnterminatedBlock { position: at, tried }
    } else if at == len && tag {
        Error::UnterminatedTag { position: at, tried }
    } else {
        Error::Syntax { position: at, tried }
    }
}

/// The first tag among what was tried from `from` on that had begun
/// before the furthest failure.
pub open spec fn open_tag(f: Furthest, from: int) -> Option<Rule>
    decreases f.tried.len() - from,
{
    if from < 0 || from >= f.tried.len() {
        None
    } else if is_tag_rule(f.tried[from].rule) && f.tried[from].since < f.at {
        Some(f.tried[from].rule)
    } else {
        open_tag(f, from + 1)
    }
}

/// Finds the first tag among what was tried that had begun before `at`.
pub fn find_open_tag(at: usize, tried: &Vec<Attempt>) -> (r: Option<Rule>)
    ensures
        r == open_tag(Furthest { at: at as int, tried: tried@ }, 0),
{
    let ghost f = Furthest { at: at as int, tried: tried@ };
    let n: usize = tried.len();
    let mut i: usize = 0;
    while i < n
        invariant
            i <= n,
            n == tried@.len(),
            f == (Furthest { at: at as int, tried: tried@ }),
            open_tag(f, 0) == open_tag(f, i as int),
        decreases n - i,
    {
        let a = tried[i];
        if is_tag_rule(a.rule) && a.since < at {
            return Some(a.rule);
        }
        i = i + 1;
    }
    None
}

/// The words in which an error is told.
pub open spec fn wording(e: Fault) -> Seq<char> {
    match e {
        Fault::Syntax { .. } => "unexpected input"@,
        Fault::UnterminatedTag { position, tried } => match open_tag(
            Furthest { at: position, tried },
            0,
        ) {
            Some(r) => "expected closing delimiter for "@ + rule_name(r)@,
            None => "expected closing delimiter"@,
        },
        Fault::UnterminatedBlock { .. } => "expected closing tag of block"@,
        Fault::InvalidLiteral { .. } => "invalid literal"@,
        Fault::MismatchedBlockName { .. } => "closing tag does not name the block it closes"@,
        Fault::DepthExceeded => "nested too deep"@,
    }
}

impl Error {
    /// The words in which the error is told.
    pub fn message(&self) -> (r: String)
        ensures
            r@ == wording(self@),
    {
        match self {
            Error::Syntax { .. } => "unexpected input".to_owned(),
            Error::UnterminatedTag { position, tried } => {
                match find_open_tag(*position, tried) {
                    Some(r) => "expected closing delimiter for ".to_owned().concat(rule_name(r)),
                    None => "expected closing delimiter".to_owned(),
                }
            },
            Error::UnterminatedBlock { .. } => "expected closing tag of block".to_owned(),
            Error::InvalidLiteral { .. } => "invalid literal".to_owned(),
            Error::MismatchedBlockName { .. } => {
                "closing tag does not name the block it closes".to_owned()
            },
            Error::DepthExceeded => "nested too deep".to_owned(),
        }
    }
}

} // verus!
