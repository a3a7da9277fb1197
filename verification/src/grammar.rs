//! The grammar: for each rule its kind and its parsing expression.
//!
//! Every definition stands twice, once as a mathematical value and once as
//! the executable function that builds that value. The big ones, [`body`],
//! [`spec_kind`] and [`spec_index`], are opaque: a proof that needs what
//! they hold of a given rule reveals them.
//!
//! A template is a run of constructs: literal text up to the next `{{`
//! that no backslash escapes, expressions, comments, partials, decorators
//! and blocks. Inside the braces of a tag white space may stand between
//! any two parts; outside of tags every byte counts.
use crate::expr::{ahead, call, chain, either, many, maybe, more, range, text, unless, Expr};
use crate::rule::{Rule, RuleKind};
use vstd::prelude::*;

verus! {

/// The number of rules.
pub const RULES: usize = 55;

/// One byte of white space.
pub open spec fn spec_space_byte() -> Expr {
    either(text(" "), either(text("\t"), either(text("\n"), text("\r"))))
}

/// One byte of white space.
#[verifier::when_used_as_spec(spec_space_byte)]
pub fn space_byte() -> (e: Expr)
    ensures
        e == spec_space_byte(),
{
    either(text(" "), either(text("\t"), either(text("\n"), text("\r"))))
}

/// One decimal digit.
pub open spec fn spec_digit() -> Expr {
    range(0x30, 0x39)
}

/// One decimal digit.
#[verifier::when_used_as_spec(spec_digit)]
pub fn digit() -> (e: Expr)
    ensures
        e == spec_digit(),
{
    range(0x30, 0x39)
}

/// One letter of the Latin alphabet.
pub open spec fn spec_letter() -> Expr {
    either(range(0x41, 0x5a), range(0x61, 0x7a))
}

/// One letter of the Latin alphabet.
#[verifier::when_used_as_spec(spec_letter)]
pub fn letter() -> (e: Expr)
    ensures
        e == spec_letter(),
{
    either(range(0x41, 0x5a), range(0x61, 0x7a))
}

/// One hexadecimal digit.
pub open spec fn spec_hex_digit() -> Expr {
    either(digit(), either(range(0x41, 0x46), range(0x61, 0x66)))
}

/// One hexadecimal digit.
#[verifier::when_used_as_spec(spec_hex_digit)]
pub fn hex_digit() -> (e: Expr)
    ensures
        e == spec_hex_digit(),
{
    either(digit(), either(range(0x41, 0x46), range(0x61, 0x66)))
}

/// One byte of a name: a letter, a digit, `-`, `_`, `$`, or a byte of a
/// character beyond ASCII.
pub open spec fn spec_symbol_byte() -> Expr {
    either(
        letter(),
        either(
            digit(),
            either(text("-"), either(text("_"), either(text("$"), range(0x80, 0xff)))),
        ),
    )
}

/// One byte of a name: a letter, a digit, `-`, `_`, `$`, or a byte of a
/// character beyond ASCII.
#[verifier::when_used_as_spec(spec_symbol_byte)]
pub fn symbol_byte() -> (e: Expr)
    ensures
        e == spec_symbol_byte(),
{
    either(
        letter(),
        either(
            digit(),
            either(text("-"), either(text("_"), either(text("$"), range(0x80, 0xff)))),
        ),
    )
}

/// One byte of the plain name of a partial: as in a name, without `$`, with
/// `/` and `.`.
pub open spec fn spec_partial_symbol_byte() -> Expr {
    either(
        letter(),
        either(
            digit(),
            either(
                text("-"),
                either(text("_"), either(text("/"), either(text("."), range(0x80, 0xff)))),
            ),
        ),
    )
}

/// One byte of the plain name of a partial: as in a name, without `$`, with
/// `/` and `.`.
#[verifier::when_used_as_spec(spec_partial_symbol_byte)]
pub fn partial_symbol_byte() -> (e: Expr)
    ensures
        e == spec_partial_symbol_byte(),
{
    either(
        letter(),
        either(
            digit(),
            either(
                text("-"),
                either(text("_"), either(text("/"), either(text("."), range(0x80, 0xff)))),
            ),
        ),
    )
}

/// The letter of a short escape in a string, after its backslash.
pub open spec fn spec_escape_letter() -> Expr {
    either(
        text("\\"),
        either(
            text("/"),
            either(
                text("b"),
                either(text("f"), either(text("n"), either(text("r"), text("t")))),
            ),
        ),
    )
}

/// The letter of a short escape in a string, after its backslash.
#[verifier::when_used_as_spec(spec_escape_letter)]
pub fn escape_letter() -> (e: Expr)
    ensures
        e == spec_escape_letter(),
{
    either(
        text("\\"),
        either(
            text("/"),
            either(
                text("b"),
                either(text("f"), either(text("n"), either(text("r"), text("t")))),
            ),
        ),
    )
}

/// Four hexadecimal digits.
pub open spec fn spec_four_hex() -> Expr {
    chain(hex_digit(), chain(hex_digit(), chain(hex_digit(), hex_digit())))
}

/// Four hexadecimal digits.
#[verifier::when_used_as_spec(spec_four_hex)]
pub fn four_hex() -> (e: Expr)
    ensures
        e == spec_four_hex(),
{
    chain(hex_digit(), chain(hex_digit(), chain(hex_digit(), hex_digit())))
}

/// One character inside a string that `quote` delimits: a byte other than the
/// quote and the backslash, or a backslash escape as in JSON.
pub open spec fn spec_quoted_byte(quote: &'static str) -> Expr {
    either(
        chain(unless(either(text(quote), text("\\"))), Expr::AnyByte),
        chain(
            text("\\"),
            either(text(quote), either(escape_letter(), chain(text("u"), four_hex()))),
        ),
    )
}

/// One character inside a string that `quote` delimits: a byte other than the
/// quote and the backslash, or a backslash escape as in JSON.
#[verifier::when_used_as_spec(spec_quoted_byte)]
pub fn quoted_byte(quote: &'static str) -> (e: Expr)
    ensures
        e == spec_quoted_byte(quote),
{
    either(
        chain(unless(either(text(quote), text("\\"))), Expr::AnyByte),
        chain(
            text("\\"),
            either(text(quote), either(escape_letter(), chain(text("u"), four_hex()))),
        ),
    )
}

/// One entry of an object: a string, a colon and a value.
pub open spec fn spec_member() -> Expr {
    chain(call(Rule::string_literal), chain(text(":"), call(Rule::literal)))
}

/// One entry of an object: a string, a colon and a value.
#[verifier::when_used_as_spec(spec_member)]
pub fn member() -> (e: Expr)
    ensures
        e == spec_member(),
{
    chain(call(Rule::string_literal), chain(text(":"), call(Rule::literal)))
}

/// One argument of a call: named, or else by position.
pub open spec fn spec_argument() -> Expr {
    either(call(Rule::hash), call(Rule::param))
}

/// One argument of a call: named, or else by position.
#[verifier::when_used_as_spec(spec_argument)]
pub fn argument() -> (e: Expr)
    ensures
        e == spec_argument(),
{
    either(call(Rule::hash), call(Rule::param))
}

/// What a tag calls: a name with arguments, or a name or subexpression alone.
pub open spec fn spec_callee() -> Expr {
    either(chain(call(Rule::identifier), more(argument())), call(Rule::name))
}

/// What a tag calls: a name with arguments, or a name or subexpression alone.
#[verifier::when_used_as_spec(spec_callee)]
pub fn callee() -> (e: Expr)
    ensures
        e == spec_callee(),
{
    either(chain(call(Rule::identifier), more(argument())), call(Rule::name))
}

/// What follows a tag's opening braces: `inner` between the two optional `~`
/// marks, then the closing braces.
pub open spec fn spec_closing(inner: Expr, close: &'static str) -> Expr {
    chain(
        maybe(call(Rule::pre_whitespace_omitter)),
        chain(inner, chain(maybe(call(Rule::pro_whitespace_omitter)), text(close))),
    )
}

/// What follows a tag's opening braces: `inner` between the two optional `~`
/// marks, then the closing braces.
#[verifier::when_used_as_spec(spec_closing)]
pub fn closing(inner: Expr, close: &'static str) -> (e: Expr)
    ensures
        e == spec_closing(inner, close),
{
    chain(
        maybe(call(Rule::pre_whitespace_omitter)),
        chain(inner, chain(maybe(call(Rule::pro_whitespace_omitter)), text(close))),
    )
}

/// A tag in double braces whose content starts with `sigil`.
pub open spec fn spec_tag(sigil: &'static str, inner: Expr) -> Expr {
    chain(
        text("{{"),
        chain(
            maybe(call(Rule::pre_whitespace_omitter)),
            chain(
                text(sigil),
                chain(inner, chain(maybe(call(Rule::pro_whitespace_omitter)), text("}}"))),
            ),
        ),
    )
}

/// A tag in double braces whose content starts with `sigil`.
#[verifier::when_used_as_spec(spec_tag)]
pub fn tag(sigil: &'static str, inner: Expr) -> (e: Expr)
    ensures
        e == spec_tag(sigil, inner),
{
    chain(
        text("{{"),
        chain(
            maybe(call(Rule::pre_whitespace_omitter)),
            chain(
                text(sigil),
                chain(inner, chain(maybe(call(Rule::pro_whitespace_omitter)), text("}}"))),
            ),
        ),
    )
}

/// What follows the opening braces of an `else` tag.
pub open spec fn spec_inverse_rest() -> Expr {
    closing(call(Rule::invert_tag_item), "}}")
}

/// What follows the opening braces of an `else` tag.
#[verifier::when_used_as_spec(spec_inverse_rest)]
pub fn inverse_rest() -> (e: Expr)
    ensures
        e == spec_inverse_rest(),
{
    closing(call(Rule::invert_tag_item), "}}")
}

/// What stands between two segments of a path.
pub open spec fn spec_separator() -> Expr {
    either(text("/"), text("."))
}

/// What stands between two segments of a path.
#[verifier::when_used_as_spec(spec_separator)]
pub fn separator() -> (e: Expr)
    ensures
        e == spec_separator(),
{
    either(text("/"), text("."))
}

/// One segment of a path: a name, or any text in square brackets.
pub open spec fn spec_segment() -> Expr {
    either(call(Rule::path_id), chain(text("["), chain(call(Rule::path_raw_id), text("]"))))
}

/// One segment of a path: a name, or any text in square brackets.
#[verifier::when_used_as_spec(spec_segment)]
pub fn segment() -> (e: Expr)
    ensures
        e == spec_segment(),
{
    either(call(Rule::path_id), chain(text("["), chain(call(Rule::path_raw_id), text("]"))))
}

/// One step through literal text: an escape, or one byte where `stop` does
/// not start.
pub open spec fn spec_literal_step(stop: &'static str) -> Expr {
    either(call(Rule::escape), chain(unless(text(stop)), Expr::AnyByte))
}

/// One step through literal text: an escape, or one byte where `stop` does
/// not start.
#[verifier::when_used_as_spec(spec_literal_step)]
pub fn literal_step(stop: &'static str) -> (e: Expr)
    ensures
        e == spec_literal_step(stop),
{
    either(call(Rule::escape), chain(unless(text(stop)), Expr::AnyByte))
}

/// One construct of a template: literal text, or one of the tags and blocks,
/// tried in this order.
pub open spec fn spec_construct() -> Expr {
    either(
        call(Rule::raw_text),
        either(
            call(Rule::expression),
            either(
                call(Rule::html_expression),
                either(
                    call(Rule::helper_block),
                    either(
                        call(Rule::raw_block),
                        either(
                            call(Rule::hbs_comment),
                            either(
                                call(Rule::hbs_comment_compact),
                                either(
                                    call(Rule::decorator_expression),
                                    either(
                                        call(Rule::decorator_block),
                                        either(
                                            call(Rule::partial_expression),
                                            call(Rule::partial_block),
                                        ),
                                    ),
                                ),
                            ),
                        ),
                    ),
                ),
            ),
        ),
    )
}

/// One construct of a template: literal text, or one of the tags and blocks,
/// tried in this order.
#[verifier::when_used_as_spec(spec_construct)]
pub fn construct() -> (e: Expr)
    ensures
        e == spec_construct(),
{
    either(
        call(Rule::raw_text),
        either(
            call(Rule::expression),
            either(
                call(Rule::html_expression),
                either(
                    call(Rule::helper_block),
                    either(
                        call(Rule::raw_block),
                        either(
                            call(Rule::hbs_comment),
                            either(
                                call(Rule::hbs_comment_compact),
                                either(
                                    call(Rule::decorator_expression),
                                    either(
                                        call(Rule::decorator_block),
                                        either(
                                            call(Rule::partial_expression),
                                            call(Rule::partial_block),
                                        ),
                                    ),
                                ),
                            ),
                        ),
                    ),
                ),
            ),
        ),
    )
}

/// The kind of each rule.
#[verifier::opaque]
pub open spec fn spec_kind(r: Rule) -> RuleKind {
    match r {
        Rule::comment_text | Rule::comment_text_compact | Rule::keywords | Rule::escape
        | Rule::null_literal | Rule::boolean_literal | Rule::number_literal
        | Rule::string_literal | Rule::identifier | Rule::partial_identifier | Rule::path_id
        | Rule::path_raw_id => RuleKind::Token,
        Rule::hbs_comment | Rule::hbs_comment_compact | Rule::raw_text | Rule::raw_block_text
        | Rule::reference | Rule::path_inline | Rule::template | Rule::helper_block
        | Rule::raw_block | Rule::partial_block | Rule::decorator_block => RuleKind::Joined,
        Rule::expression | Rule::html_expression | Rule::decorator_expression
        | Rule::partial_expression | Rule::invert_tag | Rule::helper_block_start
        | Rule::helper_block_end | Rule::decorator_block_start | Rule::decorator_block_end
        | Rule::partial_block_start | Rule::partial_block_end | Rule::raw_block_start
        | Rule::raw_block_end => RuleKind::Spaced,
        Rule::name | Rule::exp_line | Rule::partial_exp_line | Rule::parameter
        | Rule::handlebars | Rule::path => RuleKind::Silent,
        _ => RuleKind::Plain,
    }
}

/// The kind of each rule.
#[verifier::when_used_as_spec(spec_kind)]
pub fn kind(r: Rule) -> (k: RuleKind)
    ensures
        k == spec_kind(r),
{
    proof {
        reveal(spec_kind);
    }
    match r {
        Rule::comment_text | Rule::comment_text_compact | Rule::keywords | Rule::escape
        | Rule::null_literal | Rule::boolean_literal | Rule::number_literal
        | Rule::string_literal | Rule::identifier | Rule::partial_identifier | Rule::path_id
        | Rule::path_raw_id => RuleKind::Token,
        Rule::hbs_comment | Rule::hbs_comment_compact | Rule::raw_text | Rule::raw_block_text
        | Rule::reference | Rule::path_inline | Rule::template | Rule::helper_block
        | Rule::raw_block | Rule::partial_block | Rule::decorator_block => RuleKind::Joined,
        Rule::expression | Rule::html_expression | Rule::decorator_expression
        | Rule::partial_expression | Rule::invert_tag | Rule::helper_block_start
        | Rule::helper_block_end | Rule::decorator_block_start | Rule::decorator_block_end
        | Rule::partial_block_start | Rule::partial_block_end | Rule::raw_block_start
        | Rule::raw_block_end => RuleKind::Spaced,
        Rule::name | Rule::exp_line | Rule::partial_exp_line | Rule::parameter
        | Rule::handlebars | Rule::path => RuleKind::Silent,
        _ => RuleKind::Plain,
    }
}

/// The parsing expression of each rule.
#[verifier::opaque]
pub open spec fn body(r: Rule) -> Expr {
    match r {
        Rule::keywords => chain(either(text("as"), text("else")), unless(symbol_byte())),
        Rule::escape => either(
            chain(text("\\"), chain(text("{{"), maybe(text("{{")))),
            chain(text("\\"), chain(more(text("\\")), ahead(text("{{")))),
        ),
        Rule::raw_text => more(literal_step("{{")),
        Rule::raw_block_text => many(literal_step("{{{{")),
        Rule::literal => either(
            call(Rule::string_literal),
            either(
                call(Rule::array_literal),
                either(
                    call(Rule::object_literal),
                    either(
                        call(Rule::number_literal),
                        either(call(Rule::null_literal), call(Rule::boolean_literal)),
                    ),
                ),
            ),
        ),
        Rule::null_literal => chain(text("null"), unless(symbol_byte())),
        Rule::boolean_literal => chain(
            either(text("true"), text("false")),
            unless(symbol_byte()),
        ),
        Rule::number_literal => chain(
            maybe(text("-")),
            chain(
                more(digit()),
                chain(
                    maybe(text(".")),
                    chain(
                        many(digit()),
                        chain(
                            maybe(chain(text("E"), chain(maybe(text("-")), more(digit())))),
                            unless(symbol_byte()),
                        ),
                    ),
                ),
            ),
        ),
        Rule::string_literal => either(
            chain(text("\""), chain(many(quoted_byte("\"")), text("\""))),
            chain(text("'"), chain(many(quoted_byte("'")), text("'"))),
        ),
        Rule::array_literal => chain(
            text("["),
            chain(
                maybe(chain(call(Rule::literal), many(chain(text(","), call(Rule::literal))))),
                text("]"),
            ),
        ),
        Rule::object_literal => chain(
            text("{"),
            chain(maybe(chain(member(), many(chain(text(","), member())))), text("}")),
        ),
        Rule::identifier => chain(unless(digit()), more(symbol_byte())),
        Rule::partial_identifier => either(
            more(partial_symbol_byte()),
            either(
                chain(
                    text("["),
                    chain(more(chain(unless(text("]")), Expr::AnyByte)), text("]")),
                ),
                chain(
                    text("'"),
                    chain(
                        more(chain(unless(text("'")), either(text("\\'"), Expr::AnyByte))),
                        text("'"),
                    ),
                ),
            ),
        ),
        Rule::reference => call(Rule::path_inline),
        Rule::name => either(call(Rule::subexpression), call(Rule::reference)),
        Rule::param => chain(
            unless(call(Rule::keywords)),
            either(
                call(Rule::literal),
                either(call(Rule::reference), call(Rule::subexpression)),
            ),
        ),
        Rule::hash => chain(call(Rule::identifier), chain(text("="), call(Rule::param))),
        Rule::block_param => chain(
            text("as"),
            chain(text("|"), chain(more(call(Rule::identifier)), text("|"))),
        ),
        Rule::exp_line => chain(
            call(Rule::identifier),
            chain(many(argument()), maybe(call(Rule::block_param))),
        ),
        Rule::partial_exp_line => chain(
            either(call(Rule::partial_identifier), call(Rule::name)),
            many(argument()),
        ),
        Rule::subexpression => chain(
            text("("),
            chain(
                either(
                    chain(call(Rule::identifier), more(argument())),
                    call(Rule::reference),
                ),
                text(")"),
            ),
        ),
        Rule::pre_whitespace_omitter => text("~"),
        Rule::pro_whitespace_omitter => text("~"),
        Rule::expression => chain(
            text("{{"),
            chain(unless(inverse_rest()), closing(callee(), "}}")),
        ),
        Rule::html_expression => either(
            chain(text("{{{"), closing(callee(), "}}}")),
            either(
                chain(
                    text("{{"),
                    chain(
                        maybe(call(Rule::pre_whitespace_omitter)),
                        chain(
                            text("{"),
                            chain(
                                callee(),
                                chain(
                                    text("}"),
                                    chain(maybe(call(Rule::pro_whitespace_omitter)), text("}}")),
                                ),
                            ),
                        ),
                    ),
                ),
                tag("&", call(Rule::name)),
            ),
        ),
        Rule::decorator_expression => tag("*", call(Rule::exp_line)),
        Rule::partial_expression => tag(">", call(Rule::partial_exp_line)),
        Rule::invert_tag_item => either(text("else"), text("^")),
        Rule::invert_tag => chain(text("{{"), inverse_rest()),
        Rule::helper_block_start => tag("#", call(Rule::exp_line)),
        Rule::helper_block_end => tag("/", call(Rule::identifier)),
        Rule::helper_block => chain(
            call(Rule::helper_block_start),
            chain(
                call(Rule::template),
                chain(
                    many(chain(call(Rule::invert_tag), call(Rule::template))),
                    call(Rule::helper_block_end),
                ),
            ),
        ),
        Rule::decorator_block_start => tag("#", chain(text("*"), call(Rule::exp_line))),
        Rule::decorator_block_end => tag("/", call(Rule::identifier)),
        Rule::decorator_block => chain(
            call(Rule::decorator_block_start),
            chain(call(Rule::template), call(Rule::decorator_block_end)),
        ),
        Rule::partial_block_start => tag(
            "#",
            chain(text(">"), call(Rule::partial_exp_line)),
        ),
        Rule::partial_block_end => tag("/", call(Rule::partial_identifier)),
        Rule::partial_block => chain(
            call(Rule::partial_block_start),
            chain(call(Rule::template), call(Rule::partial_block_end)),
        ),
        Rule::raw_block_start => chain(text("{{{{"), closing(call(Rule::exp_line), "}}}}")),
        Rule::raw_block_end => chain(
            text("{{{{"),
            closing(chain(text("/"), call(Rule::identifier)), "}}}}"),
        ),
        Rule::raw_block => chain(
            call(Rule::raw_block_start),
            chain(call(Rule::raw_block_text), call(Rule::raw_block_end)),
        ),
        Rule::hbs_comment => chain(
            text("{{!"),
            chain(
                many(space_byte()),
                chain(text("--"), chain(call(Rule::comment_text), text("--}}"))),
            ),
        ),
        Rule::hbs_comment_compact => chain(
            text("{{!"),
            chain(call(Rule::comment_text_compact), text("}}")),
        ),
        Rule::comment_text => many(chain(unless(text("--}}")), Expr::AnyByte)),
        Rule::comment_text_compact => many(chain(unless(text("}}")), Expr::AnyByte)),
        Rule::template => many(construct()),
        Rule::parameter => chain(call(Rule::param), Expr::End),
        Rule::handlebars => chain(call(Rule::template), Expr::End),
        Rule::path_id => chain(unless(digit()), more(symbol_byte())),
        Rule::path_raw_id => many(chain(unless(text("]")), Expr::AnyByte)),
        Rule::path_up => text(".."),
        Rule::path_root => text("@root"),
        Rule::path_local => text("@"),
        Rule::path_inline => chain(
            maybe(either(chain(text("this"), separator()), text("./"))),
            chain(
                maybe(chain(call(Rule::path_root), separator())),
                chain(
                    maybe(call(Rule::path_local)),
                    chain(
                        many(chain(call(Rule::path_up), separator())),
                        chain(segment(), many(chain(separator(), segment()))),
                    ),
                ),
            ),
        ),
        Rule::path => chain(call(Rule::path_inline), Expr::End),
    }
}

/// Builds the parsing expression of a rule.
pub fn build(r: Rule) -> (e: Expr)
    ensures
        e == body(r),
{
    proof {
        reveal(body);
    }
    match r {
        Rule::keywords => chain(either(text("as"), text("else")), unless(symbol_byte())),
        Rule::escape => either(
            chain(text("\\"), chain(text("{{"), maybe(text("{{")))),
            chain(text("\\"), chain(more(text("\\")), ahead(text("{{")))),
        ),
        Rule::raw_text => more(literal_step("{{")),
        Rule::raw_block_text => many(literal_step("{{{{")),
        Rule::literal => either(
            call(Rule::string_literal),
            either(
                call(Rule::array_literal),
                either(
                    call(Rule::object_literal),
                    either(
                        call(Rule::number_literal),
                        either(call(Rule::null_literal), call(Rule::boolean_literal)),
                    ),
                ),
            ),
        ),
        Rule::null_literal => chain(text("null"), unless(symbol_byte())),
        Rule::boolean_literal => chain(
            either(text("true"), text("false")),
            unless(symbol_byte()),
        ),
        Rule::number_literal => chain(
            maybe(text("-")),
            chain(
                more(digit()),
                chain(
                    maybe(text(".")),
                    chain(
                        many(digit()),
                        chain(
                            maybe(chain(text("E"), chain(maybe(text("-")), more(digit())))),
                            unless(symbol_byte()),
                        ),
                    ),
                ),
            ),
        ),
        Rule::string_literal => either(
            chain(text("\""), chain(many(quoted_byte("\"")), text("\""))),
            chain(text("'"), chain(many(quoted_byte("'")), text("'"))),
        ),
        Rule::array_literal => chain(
            text("["),
            chain(
                maybe(chain(call(Rule::literal), many(chain(text(","), call(Rule::literal))))),
                text("]"),
            ),
        ),
        Rule::object_literal => chain(
            text("{"),
            chain(maybe(chain(member(), many(chain(text(","), member())))), text("}")),
        ),
        Rule::identifier => chain(unless(digit()), more(symbol_byte())),
        Rule::partial_identifier => either(
            more(partial_symbol_byte()),
            either(
                chain(
                    text("["),
                    chain(more(chain(unless(text("]")), Expr::AnyByte)), text("]")),
                ),
                chain(
                    text("'"),
                    chain(
                        more(chain(unless(text("'")), either(text("\\'"), Expr::AnyByte))),
                        text("'"),
                    ),
                ),
            ),
        ),
        Rule::reference => call(Rule::path_inline),
        Rule::name => either(call(Rule::subexpression), call(Rule::reference)),
        Rule::param => chain(
            unless(call(Rule::keywords)),
            either(
                call(Rule::literal),
                either(call(Rule::reference), call(Rule::subexpression)),
            ),
        ),
        Rule::hash => chain(call(Rule::identifier), chain(text("="), call(Rule::param))),
        Rule::block_param => chain(
            text("as"),
            chain(text("|"), chain(more(call(Rule::identifier)), text("|"))),
        ),
        Rule::exp_line => chain(
            call(Rule::identifier),
            chain(many(argument()), maybe(call(Rule::block_param))),
        ),
        Rule::partial_exp_line => chain(
            either(call(Rule::partial_identifier), call(Rule::name)),
            many(argument()),
        ),
        Rule::subexpression => chain(
            text("("),
            chain(
                either(
                    chain(call(Rule::identifier), more(argument())),
                    call(Rule::reference),
                ),
                text(")"),
            ),
        ),
        Rule::pre_whitespace_omitter => text("~"),
        Rule::pro_whitespace_omitter => text("~"),
        Rule::expression => chain(
            text("{{"),
            chain(unless(inverse_rest()), closing(callee(), "}}")),
        ),
        Rule::html_expression => either(
            chain(text("{{{"), closing(callee(), "}}}")),
            either(
                chain(
                    text("{{"),
                    chain(
                        maybe(call(Rule::pre_whitespace_omitter)),
                        chain(
                            text("{"),
                            chain(
                                callee(),
                                chain(
                                    text("}"),
                                    chain(maybe(call(Rule::pro_whitespace_omitter)), text("}}")),
                                ),
                            ),
                        ),
                    ),
                ),
                tag("&", call(Rule::name)),
            ),
        ),
        Rule::decorator_expression => tag("*", call(Rule::exp_line)),
        Rule::partial_expression => tag(">", call(Rule::partial_exp_line)),
        Rule::invert_tag_item => either(text("else"), text("^")),
        Rule::invert_tag => chain(text("{{"), inverse_rest()),
        Rule::helper_block_start => tag("#", call(Rule::exp_line)),
        Rule::helper_block_end => tag("/", call(Rule::identifier)),
        Rule::helper_block => chain(
            call(Rule::helper_block_start),
            chain(
                call(Rule::template),
                chain(
                    many(chain(call(Rule::invert_tag), call(Rule::template))),
                    call(Rule::helper_block_end),
                ),
            ),
        ),
        Rule::decorator_block_start => tag("#", chain(text("*"), call(Rule::exp_line))),
        Rule::decorator_block_end => tag("/", call(Rule::identifier)),
        Rule::decorator_block => chain(
            call(Rule::decorator_block_start),
            chain(call(Rule::template), call(Rule::decorator_block_end)),
        ),
        Rule::partial_block_start => tag(
            "#",
            chain(text(">"), call(Rule::partial_exp_line)),
        ),
        Rule::partial_block_end => tag("/", call(Rule::partial_identifier)),
        Rule::partial_block => chain(
            call(Rule::partial_block_start),
            chain(call(Rule::template), call(Rule::partial_block_end)),
        ),
        Rule::raw_block_start => chain(text("{{{{"), closing(call(Rule::exp_line), "}}}}")),
        Rule::raw_block_end => chain(
            text("{{{{"),
            closing(chain(text("/"), call(Rule::identifier)), "}}}}"),
        ),
        Rule::raw_block => chain(
            call(Rule::raw_block_start),
            chain(call(Rule::raw_block_text), call(Rule::raw_block_end)),
        ),
        Rule::hbs_comment => chain(
            text("{{!"),
            chain(
                many(space_byte()),
                chain(text("--"), chain(call(Rule::comment_text), text("--}}"))),
            ),
        ),
        Rule::hbs_comment_compact => chain(
            text("{{!"),
            chain(call(Rule::comment_text_compact), text("}}")),
        ),
        Rule::comment_text => many(chain(unless(text("--}}")), Expr::AnyByte)),
        Rule::comment_text_compact => many(chain(unless(text("}}")), Expr::AnyByte)),
        Rule::template => many(construct()),
        Rule::parameter => chain(call(Rule::param), Expr::End),
        Rule::handlebars => chain(call(Rule::template), Expr::End),
        Rule::path_id => chain(unless(digit()), more(symbol_byte())),
        Rule::path_raw_id => many(chain(unless(text("]")), Expr::AnyByte)),
        Rule::path_up => text(".."),
        Rule::path_root => text("@root"),
        Rule::path_local => text("@"),
        Rule::path_inline => chain(
            maybe(either(chain(text("this"), separator()), text("./"))),
            chain(
                maybe(chain(call(Rule::path_root), separator())),
                chain(
                    maybe(call(Rule::path_local)),
                    chain(
                        many(chain(call(Rule::path_up), separator())),
                        chain(segment(), many(chain(separator(), segment()))),
                    ),
                ),
            ),
        ),
        Rule::path => chain(call(Rule::path_inline), Expr::End),
    }
}

/// The place of each rule in the table.
#[verifier::opaque]
pub open spec fn spec_index(r: Rule) -> usize {
    match r {
        Rule::keywords => 0,
        Rule::escape => 1,
        Rule::raw_text => 2,
        Rule::raw_block_text => 3,
        Rule::literal => 4,
        Rule::null_literal => 5,
        Rule::boolean_literal => 6,
        Rule::number_literal => 7,
        Rule::string_literal => 8,
        Rule::array_literal => 9,
        Rule::object_literal => 10,
        Rule::identifier => 11,
        Rule::partial_identifier => 12,
        Rule::reference => 13,
        Rule::name => 14,
        Rule::param => 15,
        Rule::hash => 16,
        Rule::block_param => 17,
        Rule::exp_line => 18,
        Rule::partial_exp_line => 19,
        Rule::subexpression => 20,
        Rule::pre_whitespace_omitter => 21,
        Rule::pro_whitespace_omitter => 22,
        Rule::expression => 23,
        Rule::html_expression => 24,
        Rule::decorator_expression => 25,
        Rule::partial_expression => 26,
        Rule::invert_tag_item => 27,
        Rule::invert_tag => 28,
        Rule::helper_block_start => 29,
        Rule::helper_block_end => 30,
        Rule::helper_block => 31,
        Rule::decorator_block_start => 32,
        Rule::decorator_block_end => 33,
        Rule::decorator_block => 34,
        Rule::partial_block_start => 35,
        Rule::partial_block_end => 36,
        Rule::partial_block => 37,
        Rule::raw_block_start => 38,
        Rule::raw_block_end => 39,
        Rule::raw_block => 40,
        Rule::hbs_comment => 41,
        Rule::hbs_comment_compact => 42,
        Rule::comment_text => 43,
        Rule::comment_text_compact => 44,
        Rule::template => 45,
        Rule::parameter => 46,
        Rule::handlebars => 47,
        Rule::path_id => 48,
        Rule::path_raw_id => 49,
        Rule::path_up => 50,
        Rule::path_root => 51,
        Rule::path_local => 52,
        Rule::path_inline => 53,
        Rule::path => 54,
    }
}

/// The place of each rule in the table.
#[verifier::when_used_as_spec(spec_index)]
pub fn index(r: Rule) -> (i: usize)
    ensures
        i == spec_index(r),
        i < RULES,
{
    proof {
        reveal(spec_index);
    }
    match r {
        Rule::keywords => 0,
        Rule::escape => 1,
        Rule::raw_text => 2,
        Rule::raw_block_text => 3,
        Rule::literal => 4,
        Rule::null_literal => 5,
        Rule::boolean_literal => 6,
        Rule::number_literal => 7,
        Rule::string_literal => 8,
        Rule::array_literal => 9,
        Rule::object_literal => 10,
        Rule::identifier => 11,
        Rule::partial_identifier => 12,
        Rule::reference => 13,
        Rule::name => 14,
        Rule::param => 15,
        Rule::hash => 16,
        Rule::block_param => 17,
        Rule::exp_line => 18,
        Rule::partial_exp_line => 19,
        Rule::subexpression => 20,
        Rule::pre_whitespace_omitter => 21,
        Rule::pro_whitespace_omitter => 22,
        Rule::expression => 23,
        Rule::html_expression => 24,
        Rule::decorator_expression => 25,
        Rule::partial_expression => 26,
        Rule::invert_tag_item => 27,
        Rule::invert_tag => 28,
        Rule::helper_block_start => 29,
        Rule::helper_block_end => 30,
        Rule::helper_block => 31,
        Rule::decorator_block_start => 32,
        Rule::decorator_block_end => 33,
        Rule::decorator_block => 34,
        Rule::partial_block_start => 35,
        Rule::partial_block_end => 36,
        Rule::partial_block => 37,
        Rule::raw_block_start => 38,
        Rule::raw_block_end => 39,
        Rule::raw_block => 40,
        Rule::hbs_comment => 41,
        Rule::hbs_comment_compact => 42,
        Rule::comment_text => 43,
        Rule::comment_text_compact => 44,
        Rule::template => 45,
        Rule::parameter => 46,
        Rule::handlebars => 47,
        Rule::path_id => 48,
        Rule::path_raw_id => 49,
        Rule::path_up => 50,
        Rule::path_root => 51,
        Rule::path_local => 52,
        Rule::path_inline => 53,
        Rule::path => 54,
    }
}

/// What the table holds of one rule.
pub struct Entry {
    pub kind: RuleKind,
    pub body: Expr,
}

/// The entry at the place of `r` is the kind and the body of `r`.
pub open spec fn holds(entries: Seq<Entry>, r: Rule) -> bool {
    &&& entries[spec_index(r) as int].kind == spec_kind(r)
    &&& entries[spec_index(r) as int].body == body(r)
}

/// The entry of one rule.
pub fn entry(r: Rule) -> (e: Entry)
    ensures
        e.kind == spec_kind(r),
        e.body == body(r),
{
    Entry { kind: kind(r), body: build(r) }
}

/// The grammar as a table: one entry for each rule, at the rule's index.
pub struct Table {
    pub entries: Vec<Entry>,
}

impl Table {
    /// The table holds the whole grammar.
    pub open spec fn complete(&self) -> bool {
        &&& self.entries@.len() == RULES
        &&& forall|r: Rule| #[trigger] holds(self.entries@, r)
    }

    /// Builds the table of the whole grammar.
    pub fn new() -> (t: Table)
        ensures
            t.complete(),
    {
        let mut entries: Vec<Entry> = Vec::new();

        entries.push(entry(Rule::keywords));
        entries.push(entry(Rule::escape));
        entries.push(entry(Rule::raw_text));
        entries.push(entry(Rule::raw_block_text));
        entries.push(entry(Rule::literal));
        entries.push(entry(Rule::null_literal));
        entries.push(entry(Rule::boolean_literal));
        entries.push(entry(Rule::number_literal));
        entries.push(entry(Rule::string_literal));
        entries.push(entry(Rule::array_literal));
        entries.push(entry(Rule::object_literal));
        entries.push(entry(Rule::identifier));
        entries.push(entry(Rule::partial_identifier));
        entries.push(entry(Rule::reference));
        entries.push(entry(Rule::name));
        entries.push(entry(Rule::param));
        entries.push(entry(Rule::hash));
        entries.push(entry(Rule::block_param));
        entries.push(entry(Rule::exp_line));
        entries.push(entry(Rule::partial_exp_line));
        entries.push(entry(Rule::subexpression));
        entries.push(entry(Rule::pre_whitespace_omitter));
        entries.push(entry(Rule::pro_whitespace_omitter));
        entries.push(entry(Rule::expression));
        entries.push(entry(Rule::html_expression));
        entries.push(entry(Rule::decorator_expression));
        entries.push(entry(Rule::partial_expression));
        entries.push(entry(Rule::invert_tag_item));
        entries.push(entry(Rule::invert_tag));
        entries.push(entry(Rule::helper_block_start));
        entries.push(entry(Rule::helper_block_end));
        entries.push(entry(Rule::helper_block));
        entries.push(entry(Rule::decorator_block_start));
        entries.push(entry(Rule::decorator_block_end));
        entries.push(entry(Rule::decorator_block));
        entries.push(entry(Rule::partial_block_start));
        entries.push(entry(Rule::partial_block_end));
        entries.push(entry(Rule::partial_block));
        entries.push(entry(Rule::raw_block_start));
        entries.push(entry(Rule::raw_block_end));
        entries.push(entry(Rule::raw_block));
        entries.push(entry(Rule::hbs_comment));
        entries.push(entry(Rule::hbs_comment_compact));
        entries.push(entry(Rule::comment_text));
        entries.push(entry(Rule::comment_text_compact));
        entries.push(entry(Rule::template));
        entries.push(entry(Rule::parameter));
        entries.push(entry(Rule::handlebars));
        entries.push(entry(Rule::path_id));
        entries.push(entry(Rule::path_raw_id));
        entries.push(entry(Rule::path_up));
        entries.push(entry(Rule::path_root));
        entries.push(entry(Rule::path_local));
        entries.push(entry(Rule::path_inline));
        entries.push(entry(Rule::path));
        proof {
            reveal(spec_index);
        }
        assert forall|r: Rule| #[trigger] holds(entries@, r) by {
            match r {
                Rule::keywords => {
                    assert(holds(entries@, Rule::keywords));
                },
                Rule::escape => {
                    assert(holds(entries@, Rule::escape));
                },
                Rule::raw_text => {
                    assert(holds(entries@, Rule::raw_text));
                },
                Rule::raw_block_text => {
                    assert(holds(entries@, Rule::raw_block_text));
                },
                Rule::literal => {
                    assert(holds(entries@, Rule::literal));
                },
                Rule::null_literal => {
                    assert(holds(entries@, Rule::null_literal));
                },
                Rule::boolean_literal => {
                    assert(holds(entries@, Rule::boolean_literal));
                },
                Rule::number_literal => {
                    assert(holds(entries@, Rule::number_literal));
                },
                Rule::string_literal => {
                    assert(holds(entries@, Rule::string_literal));
                },
                Rule::array_literal => {
                    assert(holds(entries@, Rule::array_literal));
                },
                Rule::object_literal => {
                    assert(holds(entries@, Rule::object_literal));
                },
                Rule::identifier => {
                    assert(holds(entries@, Rule::identifier));
                },
                Rule::partial_identifier => {
                    assert(holds(entries@, Rule::partial_identifier));
                },
                Rule::reference => {
                    assert(holds(entries@, Rule::reference));
                },
                Rule::name => {
                    assert(holds(entries@, Rule::name));
                },
                Rule::param => {
                    assert(holds(entries@, Rule::param));
                },
                Rule::hash => {
                    assert(holds(entries@, Rule::hash));
                },
                Rule::block_param => {
                    assert(holds(entries@, Rule::block_param));
                },
                Rule::exp_line => {
                    assert(holds(entries@, Rule::exp_line));
                },
                Rule::partial_exp_line => {
                    assert(holds(entries@, Rule::partial_exp_line));
                },
                Rule::subexpression => {
                    assert(holds(entries@, Rule::subexpression));
                },
                Rule::pre_whitespace_omitter => {
                    assert(holds(entries@, Rule::pre_whitespace_omitter));
                },
                Rule::pro_whitespace_omitter => {
                    assert(holds(entries@, Rule::pro_whitespace_omitter));
                },
                Rule::expression => {
                    assert(holds(entries@, Rule::expression));
                },
                Rule::html_expression => {
                    assert(holds(entries@, Rule::html_expression));
                },
                Rule::decorator_expression => {
                    assert(holds(entries@, Rule::decorator_expression));
                },
                Rule::partial_expression => {
                    assert(holds(entries@, Rule::partial_expression));
                },
                Rule::invert_tag_item => {
                    assert(holds(entries@, Rule::invert_tag_item));
                },
                Rule::invert_tag => {
                    assert(holds(entries@, Rule::invert_tag));
                },
                Rule::helper_block_start => {
                    assert(holds(entries@, Rule::helper_block_start));
                },
                Rule::helper_block_end => {
                    assert(holds(entries@, Rule::helper_block_end));
                },
                Rule::helper_block => {
                    assert(holds(entries@, Rule::helper_block));
                },
                Rule::decorator_block_start => {
                    assert(holds(entries@, Rule::decorator_block_start));
                },
                Rule::decorator_block_end => {
                    assert(holds(entries@, Rule::decorator_block_end));
                },
                Rule::decorator_block => {
                    assert(holds(entries@, Rule::decorator_block));
                },
                Rule::partial_block_start => {
                    assert(holds(entries@, Rule::partial_block_start));
                },
                Rule::partial_block_end => {
                    assert(holds(entries@, Rule::partial_block_end));
                },
                Rule::partial_block => {
                    assert(holds(entries@, Rule::partial_block));
                },
                Rule::raw_block_start => {
                    assert(holds(entries@, Rule::raw_block_start));
                },
                Rule::raw_block_end => {
                    assert(holds(entries@, Rule::raw_block_end));
                },
                Rule::raw_block => {
                    assert(holds(entries@, Rule::raw_block));
                },
                Rule::hbs_comment => {
                    assert(holds(entries@, Rule::hbs_comment));
                },
                Rule::hbs_comment_compact => {
                    assert(holds(entries@, Rule::hbs_comment_compact));
                },
                Rule::comment_text => {
                    assert(holds(entries@, Rule::comment_text));
                },
                Rule::comment_text_compact => {
                    assert(holds(entries@, Rule::comment_text_compact));
                },
                Rule::template => {
                    assert(holds(entries@, Rule::template));
                },
                Rule::parameter => {
                    assert(holds(entries@, Rule::parameter));
                },
                Rule::handlebars => {
                    assert(holds(entries@, Rule::handlebars));
                },
                Rule::path_id => {
                    assert(holds(entries@, Rule::path_id));
                },
                Rule::path_raw_id => {
                    assert(holds(entries@, Rule::path_raw_id));
                },
                Rule::path_up => {
                    assert(holds(entries@, Rule::path_up));
                },
                Rule::path_root => {
                    assert(holds(entries@, Rule::path_root));
                },
                Rule::path_local => {
                    assert(holds(entries@, Rule::path_local));
                },
                Rule::path_inline => {
                    assert(holds(entries@, Rule::path_inline));
                },
                Rule::path => {
                    assert(holds(entries@, Rule::path));
                },
            }
        }
        Table { entries }
    }
}

} // verus!
