//! The names of the grammar's rules.
use vstd::prelude::*;

verus! {

/// A rule of the grammar. A parse starts at one of them, and every node of
/// a parse tree carries the rule that matched it.
#[derive(Clone, Copy, Debug, PartialEq, Eq, Structural)]
pub enum Rule {
    /// `as` or `else` as a word of its own: no parameter.
    keywords,
    /// A backslash with the braces it makes literal, or a run of backslashes
    /// before braces.
    escape,
    /// Literal text up to the next braces that no backslash escapes.
    raw_text,
    /// The body of a raw block, up to the next four braces.
    raw_block_text,
    /// A value written as in JSON.
    literal,
    /// `null`.
    null_literal,
    /// `true` or `false`.
    boolean_literal,
    /// A number, with an optional minus sign, fraction and exponent.
    number_literal,
    /// A string in double or single quotes.
    string_literal,
    /// Values in square brackets, with commas between them.
    array_literal,
    /// Pairs of a string and a value in braces, with commas between them.
    object_literal,
    /// A name: letters, digits, `-`, `_`, `$`, not starting with a digit.
    identifier,
    /// The name of a partial: plain, in square brackets, or in single quotes.
    partial_identifier,
    /// A path as a parameter or as what a tag calls.
    reference,
    /// What a tag calls where it gives no arguments: a subexpression or a path.
    name,
    /// A parameter by position: a literal, a path or a subexpression.
    param,
    /// A parameter by name: a name, `=` and a parameter.
    hash,
    /// The names that a block binds: `as |a b|`.
    block_param,
    /// The content of a tag: a name, its parameters, and the names it binds.
    exp_line,
    /// The content of a partial tag: what it calls and its parameters.
    partial_exp_line,
    /// A call in round brackets.
    subexpression,
    /// `~` at the start of a tag: no white space before the tag.
    pre_whitespace_omitter,
    /// `~` at the end of a tag: no white space behind the tag.
    pro_whitespace_omitter,
    /// A tag in two braces, whose value is escaped.
    expression,
    /// A tag in three braces or with `&`, whose value is not escaped.
    html_expression,
    /// A tag with `*`.
    decorator_expression,
    /// A tag with `>`.
    partial_expression,
    /// `else` or `^` inside its tag.
    invert_tag_item,
    /// The tag between two branches of a block.
    invert_tag,
    /// The tag with `#` that opens a block.
    helper_block_start,
    /// The tag with `/` that closes a block.
    helper_block_end,
    /// A block: its opening tag, its branches with the tags between them, its
    /// closing tag.
    helper_block,
    /// The tag with `#*` that opens a decorator block.
    decorator_block_start,
    /// The tag that closes a decorator block.
    decorator_block_end,
    /// A decorator block: opening tag, body, closing tag.
    decorator_block,
    /// The tag with `#>` that opens a partial block.
    partial_block_start,
    /// The tag that closes a partial block.
    partial_block_end,
    /// A partial block: opening tag, body, closing tag.
    partial_block,
    /// The tag in four braces that opens a raw block.
    raw_block_start,
    /// The tag in four braces that closes a raw block.
    raw_block_end,
    /// A raw block: opening tag, body taken as it stands, closing tag.
    raw_block,
    /// A comment between `{{!--` and `--}}`, which may hold braces.
    hbs_comment,
    /// A comment between `{{!` and `}}`.
    hbs_comment_compact,
    /// The text of a comment that ends with `--}}`.
    comment_text,
    /// The text of a comment that ends with `}}`.
    comment_text_compact,
    /// A run of constructs: the whole input, or the body of a block.
    template,
    /// One parameter and nothing else.
    parameter,
    /// One template and nothing else: the rule for a whole input.
    handlebars,
    /// A segment of a path that is a name.
    path_id,
    /// What stands between the square brackets of a segment.
    path_raw_id,
    /// `..`: one level up.
    path_up,
    /// `@root`.
    path_root,
    /// `@` before a name.
    path_local,
    /// A path: where it starts, then segments with `.` or `/` between them.
    path_inline,
    /// One path and nothing else.
    path,
}

/// How a rule treats white space between its parts and what it leaves in
/// the parse tree.
#[derive(Clone, Copy, Debug, PartialEq, Eq, Structural)]
pub enum RuleKind {
    /// Leaves a node; white space is treated as where the rule was called.
    Plain,
    /// Leaves no node of its own; what it calls is treated as if written
    /// in its place.
    Silent,
    /// Leaves a node; white space may stand between its parts.
    Spaced,
    /// Leaves a node; no white space is skipped inside, inner nodes stay.
    Joined,
    /// Leaves a single node; no white space is skipped inside, and what it
    /// calls leaves no nodes.
    Token,
}

/// The name of a rule, as the grammar spells it.
pub open spec fn spec_rule_name(r: Rule) -> &'static str {
    match r {
        Rule::keywords => "keywords",
        Rule::escape => "escape",
        Rule::raw_text => "raw_text",
        Rule::raw_block_text => "raw_block_text",
        Rule::literal => "literal",
        Rule::null_literal => "null_literal",
        Rule::boolean_literal => "boolean_literal",
        Rule::number_literal => "number_literal",
        Rule::string_literal => "string_literal",
        Rule::array_literal => "array_literal",
        Rule::object_literal => "object_literal",
        Rule::identifier => "identifier",
        Rule::partial_identifier => "partial_identifier",
        Rule::reference => "reference",
        Rule::name => "name",
        Rule::param => "param",
        Rule::hash => "hash",
        Rule::block_param => "block_param",
        Rule::exp_line => "exp_line",
        Rule::partial_exp_line => "partial_exp_line",
        Rule::subexpression => "subexpression",
        Rule::pre_whitespace_omitter => "pre_whitespace_omitter",
        Rule::pro_whitespace_omitter => "pro_whitespace_omitter",
        Rule::expression => "expression",
        Rule::html_expression => "html_expression",
        Rule::decorator_expression => "decorator_expression",
        Rule::partial_expression => "partial_expression",
        Rule::invert_tag_item => "invert_tag_item",
        Rule::invert_tag => "invert_tag",
        Rule::helper_block_start => "helper_block_start",
        Rule::helper_block_end => "helper_block_end",
        Rule::helper_block => "helper_block",
        Rule::decorator_block_start => "decorator_block_start",
        Rule::decorator_block_end => "decorator_block_end",
        Rule::decorator_block => "decorator_block",
        Rule::partial_block_start => "partial_block_start",
        Rule::partial_block_end => "partial_block_end",
        Rule::partial_block => "partial_block",
        Rule::raw_block_start => "raw_block_start",
        Rule::raw_block_end => "raw_block_end",
        Rule::raw_block => "raw_block",
        Rule::hbs_comment => "hbs_comment",
        Rule::hbs_comment_compact => "hbs_comment_compact",
        Rule::comment_text => "comment_text",
        Rule::comment_text_compact => "comment_text_compact",
        Rule::template => "template",
        Rule::parameter => "parameter",
        Rule::handlebars => "handlebars",
        Rule::path_id => "path_id",
        Rule::path_raw_id => "path_raw_id",
        Rule::path_up => "path_up",
        Rule::path_root => "path_root",
        Rule::path_local => "path_local",
        Rule::path_inline => "path_inline",
        Rule::path => "path",
    }
}

/// The name of a rule, as the grammar spells it.
#[verifier::when_used_as_spec(spec_rule_name)]
pub fn rule_name(r: Rule) -> (name: &'static str)
    ensures
        name == spec_rule_name(r),
{
    match r {
        Rule::keywords => "keywords",
        Rule::escape => "escape",
        Rule::raw_text => "raw_text",
        Rule::raw_block_text => "raw_block_text",
        Rule::literal => "literal",
        Rule::null_literal => "null_literal",
        Rule::boolean_literal => "boolean_literal",
        Rule::number_literal => "number_literal",
        Rule::string_literal => "string_literal",
        Rule::array_literal => "array_literal",
        Rule::object_literal => "object_literal",
        Rule::identifier => "identifier",
        Rule::partial_identifier => "partial_identifier",
        Rule::reference => "reference",
        Rule::name => "name",
        Rule::param => "param",
        Rule::hash => "hash",
        Rule::block_param => "block_param",
        Rule::exp_line => "exp_line",
        Rule::partial_exp_line => "partial_exp_line",
        Rule::subexpression => "subexpression",
        Rule::pre_whitespace_omitter => "pre_whitespace_omitter",
        Rule::pro_whitespace_omitter => "pro_whitespace_omitter",
        Rule::expression => "expression",
        Rule::html_expression => "html_expression",
        Rule::decorator_expression => "decorator_expression",
        Rule::partial_expression => "partial_expression",
        Rule::invert_tag_item => "invert_tag_item",
        Rule::invert_tag => "invert_tag",
        Rule::helper_block_start => "helper_block_start",
        Rule::helper_block_end => "helper_block_end",
        Rule::helper_block => "helper_block",
        Rule::decorator_block_start => "decorator_block_start",
        Rule::decorator_block_end => "decorator_block_end",
        Rule::decorator_block => "decorator_block",
        Rule::partial_block_start => "partial_block_start",
        Rule::partial_block_end => "partial_block_end",
        Rule::partial_block => "partial_block",
        Rule::raw_block_start => "raw_block_start",
        Rule::raw_block_end => "raw_block_end",
        Rule::raw_block => "raw_block",
        Rule::hbs_comment => "hbs_comment",
        Rule::hbs_comment_compact => "hbs_comment_compact",
        Rule::comment_text => "comment_text",
        Rule::comment_text_compact => "comment_text_compact",
        Rule::template => "template",
        Rule::parameter => "parameter",
        Rule::handlebars => "handlebars",
        Rule::path_id => "path_id",
        Rule::path_raw_id => "path_raw_id",
        Rule::path_up => "path_up",
        Rule::path_root => "path_root",
        Rule::path_local => "path_local",
        Rule::path_inline => "path_inline",
        Rule::path => "path",
    }
}

} // verus!
