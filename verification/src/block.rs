//! The control-flow blocks. A fixed family of builtin helpers — if,
//! unless, if_some, with, each, and their by-reference variants — each
//! opens a lexical scope, emits its opening code, answers private
//! variables and else-markers while open, and emits its closing code.
//! The factory registry stays open — helper names map to factories,
//! and a host may register further names for the same builtins — while
//! the block family itself is a closed set of variants, so that every
//! emission a block can make is stated and verified here.
use vstd::prelude::*;

verus! {

use vstd::string::StrSliceExecFns;
use vstd::string::StringExecFns;
use crate::compiler::{spec_awd, spec_insert_use, Rust, RustModel};
use crate::error::ErrorKind;
use crate::expression::ExprModel;

/// How a block binds the value it introduces: under an explicit name,
/// as the implicit `this`, or not at all.
pub enum Local {
    As(String),
    This,
    Bare,
}

/// The mathematical shadow of a binding.
pub ghost enum LocalModel {
    As(Seq<char>),
    This,
    Bare,
}

impl View for Local {
    type V = LocalModel;

    open spec fn view(&self) -> LocalModel {
        match self {
            Local::As(name) => LocalModel::As(name@),
            Local::This => LocalModel::This,
            Local::Bare => LocalModel::Bare,
        }
    }
}

/// One open block. The root stands for the enclosing object outside any
/// marker; the others are the builtin control-flow helpers.
pub enum Block {
    Root { this: Option<String> },
    IfOrUnless,
    IfSome { local: Local },
    With { local: Local },
    Each { local: Local, indexer: Option<String>, has_else: bool },
}

/// The mathematical shadow of an open block.
pub ghost enum BlockModel {
    Root { this: Option<Seq<char>> },
    IfOrUnless,
    IfSome { local: LocalModel },
    With { local: LocalModel },
    Each { local: LocalModel, indexer: Option<Seq<char>>, has_else: bool },
}

impl View for Block {
    type V = BlockModel;

    open spec fn view(&self) -> BlockModel {
        match self {
            Block::Root { this } => BlockModel::Root {
                this: match this {
                    Some(s) => Some(s@),
                    None => None,
                },
            },
            Block::IfOrUnless => BlockModel::IfOrUnless,
            Block::IfSome { local } => BlockModel::IfSome { local: local@ },
            Block::With { local } => BlockModel::With { local: local@ },
            Block::Each { local, indexer, has_else } => BlockModel::Each {
                local: local@,
                indexer: match indexer {
                    Some(s) => Some(s@),
                    None => None,
                },
                has_else: *has_else,
            },
        }
    }
}

/// The binding a block offers to the resolver.
pub open spec fn block_local(b: BlockModel) -> LocalModel {
    match b {
        BlockModel::IfSome { local } => local,
        BlockModel::With { local } => local,
        BlockModel::Each { local, .. } => local,
        _ => LocalModel::Bare,
    }
}

/// The contextual object alias a block offers: only the root carries one.
pub open spec fn block_this(b: BlockModel) -> Option<Seq<char>> {
    match b {
        BlockModel::Root { this } => this,
        _ => None,
    }
}

/// One entry of the scope stack: the block, its depth — which equals
/// its position on the stack — and the helper name it was opened under,
/// which the matching close marker must repeat. The root carries the
/// empty name, which no close marker can reach.
pub struct Scope {
    pub opened: Block,
    pub depth: usize,
    pub name: String,
}

/// The mathematical shadow of a stack entry.
pub ghost struct ScopeModel {
    pub opened: BlockModel,
    pub depth: int,
    pub name: Seq<char>,
}

impl View for Scope {
    type V = ScopeModel;

    open spec fn view(&self) -> ScopeModel {
        ScopeModel { opened: self.opened@, depth: self.depth as int, name: self.name@ }
    }
}

/// The stack is well formed when the root is at the bottom and every
/// entry records its own position as its depth.
pub open spec fn stack_wf(stack: Seq<ScopeModel>) -> bool {
    &&& stack.len() >= 1
    &&& forall|i: int| 0 <= i < stack.len() ==> (#[trigger] stack[i]).depth == i
}

/// The name a block's binding writes into generated identifiers.
pub open spec fn spec_local_name(local: LocalModel) -> Seq<char> {
    match local {
        LocalModel::As(name) => name,
        _ => "this"@,
    }
}

/// What closing a block appends: the each-helper closes its else-wrapper
/// or bumps its counter; every other block closes one brace.
pub open spec fn spec_handle_close(b: BlockModel, rust: RustModel) -> RustModel {
    match b {
        BlockModel::Each { local, indexer, has_else } => {
            if has_else {
                RustModel { using: rust.using, code: rust.code + "}}"@ }
            } else {
                let bumped = match indexer {
                    Some(ind) => rust.code + ind + " += 1;"@,
                    None => rust.code,
                };
                RustModel { using: rust.using, code: bumped + seq!['}'] }
            }
        },
        _ => RustModel { using: rust.using, code: rust.code + seq!['}'] },
    }
}

/// What an else-marker appends while a block is open, or that else is
/// not allowed under this block.
pub open spec fn spec_handle_else(b: BlockModel, rust: RustModel) -> Result<
    RustModel,
    ErrorKind,
> {
    match b {
        BlockModel::IfOrUnless => Ok(RustModel { using: rust.using, code: rust.code + "}else{"@ }),
        BlockModel::IfSome { .. } => Ok(
            RustModel { using: rust.using, code: rust.code + "}else{"@ },
        ),
        BlockModel::Each { local, indexer, has_else } => {
            let bumped = match indexer {
                Some(ind) => rust.code + ind + " += 1;"@,
                None => rust.code,
            };
            Ok(RustModel { using: rust.using, code: bumped + "} if empty {"@ })
        },
        _ => Err(ErrorKind::ElseNotAllowedHere),
    }
}

/// How a block answers a private variable: the each-helper serves
/// `index`, `key` and `value`; every other block refuses.
pub open spec fn spec_resolve_private(
    opened: BlockModel,
    depth: int,
    name: Seq<char>,
    rust: RustModel,
) -> Result<RustModel, ErrorKind> {
    match opened {
        BlockModel::Each { local, indexer, has_else } => {
            if name == "index"@ {
                match indexer {
                    Some(ind) => Ok(RustModel { using: rust.using, code: rust.code + ind }),
                    None => Err(ErrorKind::UnboundPrivateVariable),
                }
            } else if name == "key"@ {
                Ok(
                    RustModel {
                        using: rust.using,
                        code: spec_awd(depth, spec_local_name(local), rust.code) + ".0"@,
                    },
                )
            } else if name == "value"@ {
                Ok(
                    RustModel {
                        using: rust.using,
                        code: spec_awd(depth, spec_local_name(local), rust.code) + ".1"@,
                    },
                )
            } else {
                Err(ErrorKind::UnboundPrivateVariable)
            }
        },
        _ => Err(ErrorKind::UnboundPrivateVariable),
    }
}

impl Block {
    /// The contextual object alias this block offers to the resolver.
    pub fn this(&self) -> (r: Option<&str>)
        ensures
            match r {
                Some(s) => block_this(self@) == Some(s@),
                None => block_this(self@) is None,
            },
    {
        match self {
            Block::Root { this } => match this {
                Some(s) => Some(s.as_str()),
                None => None,
            },
            _ => None,
        }
    }

    /// Appends this block's closing code.
    pub fn handle_close(&self, rust: &mut Rust)
        ensures
            final(rust)@ == spec_handle_close(self@, old(rust)@),
    {
        match self {
            Block::Each { local, indexer, has_else } => {
                if *has_else {
                    rust.code.append("}}");
                } else {
                    match indexer {
                        Some(ind) => {
                            rust.code.append(ind.as_str());
                            rust.code.append(" += 1;");
                        },
                        None => {},
                    }
                    rust.code.append("}");
                    proof {
                        reveal_strlit("}");
                        assert("}"@ =~= seq!['}']);
                    }
                }
            },
            _ => {
                rust.code.append("}");
                proof {
                    reveal_strlit("}");
                    assert("}"@ =~= seq!['}']);
                }
            },
        }
    }

    /// Appends this block's else-arm code, or refuses the marker.
    pub fn handle_else(&self, rust: &mut Rust) -> (r: Result<(), ErrorKind>)
        ensures
            match r {
                Ok(()) => spec_handle_else(self@, old(rust)@) == Ok::<RustModel, ErrorKind>(
                    final(rust)@,
                ),
                Err(k) => spec_handle_else(self@, old(rust)@) == Err::<RustModel, ErrorKind>(k)
                    && final(rust)@ == old(rust)@,
            },
    {
        match self {
            Block::IfOrUnless => {
                rust.code.append("}else{");
                Ok(())
            },
            Block::IfSome { .. } => {
                rust.code.append("}else{");
                Ok(())
            },
            Block::Each { local, indexer, has_else } => {
                match indexer {
                    Some(ind) => {
                        rust.code.append(ind.as_str());
                        rust.code.append(" += 1;");
                    },
                    None => {},
                }
                rust.code.append("} if empty {");
                Ok(())
            },
            _ => Err(ErrorKind::ElseNotAllowedHere),
        }
    }

    /// Appends what a private variable stands for under this block, or
    /// refuses the name.
    pub fn resolve_private(&self, depth: usize, name: &str, rust: &mut Rust) -> (r: Result<
        (),
        ErrorKind,
    >)
        ensures
            match r {
                Ok(()) => spec_resolve_private(self@, depth as int, name@, old(rust)@) == Ok::<
                    RustModel,
                    ErrorKind,
                >(final(rust)@),
                Err(k) => spec_resolve_private(self@, depth as int, name@, old(rust)@) == Err::<
                    RustModel,
                    ErrorKind,
                >(k) && final(rust)@ == old(rust)@,
            },
    {
        match self {
            Block::Each { local, indexer, has_else } => {
                if crate::strutil::str_eq(name, "index") {
                    match indexer {
                        Some(ind) => {
                            rust.code.append(ind.as_str());
                            Ok(())
                        },
                        None => Err(ErrorKind::UnboundPrivateVariable),
                    }
                } else if crate::strutil::str_eq(name, "key") {
                    let local_name = match local {
                        Local::As(n) => n.as_str(),
                        _ => "this",
                    };
                    crate::compiler::append_with_depth(depth, local_name, &mut rust.code);
                    rust.code.append(".0");
                    Ok(())
                } else if crate::strutil::str_eq(name, "value") {
                    let local_name = match local {
                        Local::As(n) => n.as_str(),
                        _ => "this",
                    };
                    crate::compiler::append_with_depth(depth, local_name, &mut rust.code);
                    rust.code.append(".1");
                    Ok(())
                } else {
                    Err(ErrorKind::UnboundPrivateVariable)
                }
            },
            _ => Err(ErrorKind::UnboundPrivateVariable),
        }
    }
}

/// The factories for the builtin helpers: the truth-test pair, the
/// optional-unwrapping pair, the aliasing pair and the looping pair,
/// each by value or by reference.
#[derive(Clone, Copy, Debug)]
pub enum BlockFactory {
    If,
    Unless,
    IfSome,
    IfSomeRef,
    With,
    WithRef,
    Each,
    EachRef,
}

/// Registers the builtin helpers under their names.
pub fn add_builtins(map: &mut crate::compiler::BlockMap)
    ensures
        final(map)@ == old(map)@ + seq![
            ("if"@, BlockFactory::If),
            ("unless"@, BlockFactory::Unless),
            ("if_some"@, BlockFactory::IfSome),
            ("if_some_ref"@, BlockFactory::IfSomeRef),
            ("with"@, BlockFactory::With),
            ("with_ref"@, BlockFactory::WithRef),
            ("each"@, BlockFactory::Each),
            ("each_ref"@, BlockFactory::EachRef),
        ],
{
    map.insert("if", BlockFactory::If);
    map.insert("unless", BlockFactory::Unless);
    map.insert("if_some", BlockFactory::IfSome);
    map.insert("if_some_ref", BlockFactory::IfSomeRef);
    map.insert("with", BlockFactory::With);
    map.insert("with_ref", BlockFactory::WithRef);
    map.insert("each", BlockFactory::Each);
    map.insert("each_ref", BlockFactory::EachRef);
    proof {
        assert(final(map)@ =~= old(map)@ + seq![
            ("if"@, BlockFactory::If),
            ("unless"@, BlockFactory::Unless),
            ("if_some"@, BlockFactory::IfSome),
            ("if_some_ref"@, BlockFactory::IfSomeRef),
            ("with"@, BlockFactory::With),
            ("with_ref"@, BlockFactory::WithRef),
            ("each"@, BlockFactory::Each),
            ("each_ref"@, BlockFactory::EachRef),
        ]);
    }
}

} // verus!

verus! {

use crate::compiler::{spec_write_var, Compile};
use crate::error::ParseError;
use crate::expression::{lemma_from_shrinks, spec_from, Expression, ExpressionType};
use crate::expression_tokenizer::{lemma_parse_bounds, spec_parse, Token, TokenModel};
use crate::strutil::{
    find, lemma_find_props, rfind_char, spec_find, spec_rfind, spec_starts_with, spec_trim_pipes,
    starts_with, str_eq, trim_pipes,
};

/// Skips pipe-only separator tokens after `as` and hands back the
/// binding name with its delimiting pipes removed.
pub open spec fn spec_strip_pipes(token: TokenModel) -> Result<Seq<char>, ErrorKind>
    decreases token.tail.len(),
    via spec_strip_pipes_decreases
{
    match spec_parse(token.tail) {
        Err(k) => Err(k),
        Ok(None) => Err(ErrorKind::MissingRequiredArgument),
        Ok(Some(t)) => {
            if t.value == "|"@ {
                spec_strip_pipes(t)
            } else {
                Ok(spec_trim_pipes(t.value))
            }
        },
    }
}

#[via_fn]
proof fn spec_strip_pipes_decreases(token: TokenModel) {
    lemma_parse_bounds(token.tail);
}

/// Reads a block's binding: nothing for the implicit `this`, or an `as`
/// clause naming it; anything else is a failure.
pub open spec fn spec_read_local(token: TokenModel) -> Result<LocalModel, ErrorKind> {
    match spec_parse(token.tail) {
        Err(k) => Err(k),
        Ok(None) => Ok(LocalModel::This),
        Ok(Some(t)) => {
            if t.value == "as"@ {
                match spec_strip_pipes(t) {
                    Err(k) => Err(k),
                    Ok(v) => Ok(LocalModel::As(v)),
                }
            } else {
                Err(ErrorKind::ArityMismatch)
            }
        },
    }
}

fn strip_pipes<'a>(token: Token<'a>, expression: &Expression<'a>) -> (r: Result<&'a str, ParseError>)
    ensures
        match r {
            Ok(s) => spec_strip_pipes(token@) == Ok::<Seq<char>, ErrorKind>(s@),
            Err(e) => spec_strip_pipes(token@) == Err::<Seq<char>, ErrorKind>(e.kind),
        },
{
    let mut cur = token;
    loop
        invariant
            spec_strip_pipes(token@) == spec_strip_pipes(cur@),
        decreases cur.tail@.len(),
    {
        proof {
            lemma_parse_bounds(cur@.tail);
        }
        match cur.next()? {
            Some(t) => {
                if str_eq(t.value, "|") {
                    cur = t;
                } else {
                    return Ok(trim_pipes(t.value));
                }
            },
            None => {
                return Err(
                    ParseError::new(
                        ErrorKind::MissingRequiredArgument,
                        "expected variable after as",
                        expression,
                    ),
                );
            },
        }
    }
}

fn read_local<'a>(token: &Token<'a>, expression: &Expression<'a>) -> (r: Result<Local, ParseError>)
    ensures
        match r {
            Ok(l) => spec_read_local(token@) == Ok::<LocalModel, ErrorKind>(l@),
            Err(e) => spec_read_local(token@) == Err::<LocalModel, ErrorKind>(e.kind),
        },
{
    match token.next()? {
        Some(t) => {
            if str_eq(t.value, "as") {
                let name = strip_pipes(t, expression)?;
                Ok(Local::As(String::from_str(name)))
            } else {
                let mut m = String::new();
                m.append("unexpected token ");
                m.append(t.value);
                Err(ParseError { kind: ErrorKind::ArityMismatch, message: m })
            }
        },
        None => Ok(Local::This),
    }
}

/// The number of leading parent-traversal markers on a path.
pub open spec fn spec_count_parents(s: Seq<char>) -> int
    decreases s.len(),
{
    if spec_starts_with(s, seq!['.', '.', '/']) {
        1 + spec_count_parents(s.subrange(3, s.len() as int))
    } else {
        0
    }
}

/// Whether a marker's content references the loop counter of the
/// enclosing each-helper `depth` levels up: an at-sign must precede the
/// word `index`, and the parent markers between them must climb exactly
/// `depth` levels.
pub open spec fn spec_contains_indexer(src: Seq<char>, depth: int) -> bool {
    match spec_find(src, "index"@) {
        None => false,
        Some(pos) => match spec_rfind(src.subrange(0, pos), '@') {
            None => false,
            Some(start) => spec_count_parents(src.subrange(start + 1, pos)) == depth,
        },
    }
}

fn contains_indexer(src: &str, depth: usize) -> (r: bool)
    ensures
        r == spec_contains_indexer(src@, depth as int),
{
    proof {
        reveal_strlit("../");
        assert("../"@ =~= seq!['.', '.', '/']);
        lemma_find_props(src@, "index"@);
    }
    match find(src, "index") {
        None => false,
        Some(pos) => {
            let head = src.substring_char(0, pos);
            proof {
                crate::strutil::lemma_rfind_bounds(head@, '@');
            }
            match rfind_char(head, '@') {
                None => false,
                Some(start) => {
                    let n_src = src.unicode_len();
                    let mut prefix = src.substring_char(start + 1, pos);
                    let mut count: usize = 0;
                    let ghost target = spec_count_parents(src@.subrange(start + 1, pos as int));
                    loop
                        invariant
                            "../"@ =~= seq!['.', '.', '/'],
                            n_src == src@.len(),
                            count + spec_count_parents(prefix@) == target,
                            count * 3 + prefix@.len() <= src@.len(),
                        ensures
                            !spec_starts_with(prefix@, seq!['.', '.', '/']),
                            count + spec_count_parents(prefix@) == target,
                        decreases prefix@.len(),
                    {
                        if starts_with(prefix, "../") {
                            let n = prefix.unicode_len();
                            prefix = prefix.substring_char(3, n);
                            count = count + 1;
                        } else {
                            break ;
                        }
                    }
                    count == depth
                },
            }
        },
    }
}

/// Whether the body text beginning after an each-marker references the
/// counter at the each-helper's own nesting level, scanning markers
/// until the matching close.
pub open spec fn spec_cfi(src: Seq<char>, depth: int) -> Result<bool, ErrorKind>
    decreases src.len(),
    via spec_cfi_decreases
{
    match spec_from(src) {
        Err(k) => Err(k),
        Ok(None) => Ok(false),
        Ok(Some(m)) => match m.kind {
            ExpressionType::Comment => spec_cfi(m.postfix, depth),
            ExpressionType::Escaped => spec_cfi(m.postfix, depth),
            ExpressionType::Open => {
                if spec_contains_indexer(m.content, depth - 1) {
                    Ok(true)
                } else {
                    spec_cfi(m.postfix, depth + 1)
                }
            },
            ExpressionType::Close => {
                if depth - 1 == 0 {
                    Ok(false)
                } else {
                    spec_cfi(m.postfix, depth - 1)
                }
            },
            _ => {
                if spec_contains_indexer(m.content, depth - 1) {
                    Ok(true)
                } else {
                    spec_cfi(m.postfix, depth)
                }
            },
        },
    }
}

#[via_fn]
proof fn spec_cfi_decreases(src: Seq<char>, depth: int) {
    lemma_from_shrinks(src);
}

/// Whether the body text beginning after a block-open marker holds an
/// else-marker at the block's own nesting level.
pub open spec fn spec_cfe(src: Seq<char>, depth: int) -> Result<bool, ErrorKind>
    decreases src.len(),
    via spec_cfe_decreases
{
    match spec_from(src) {
        Err(k) => Err(k),
        Ok(None) => Ok(false),
        Ok(Some(m)) => match m.kind {
            ExpressionType::Comment => spec_cfe(m.postfix, depth),
            ExpressionType::Escaped => spec_cfe(m.postfix, depth),
            ExpressionType::Open => spec_cfe(m.postfix, depth + 1),
            ExpressionType::Close => {
                if depth - 1 == 0 {
                    Ok(false)
                } else {
                    spec_cfe(m.postfix, depth - 1)
                }
            },
            _ => {
                if m.content == "else"@ && depth == 1 {
                    Ok(true)
                } else {
                    spec_cfe(m.postfix, depth)
                }
            },
        },
    }
}

#[via_fn]
proof fn spec_cfe_decreases(src: Seq<char>, depth: int) {
    lemma_from_shrinks(src);
}

/// Scans an each-body for a counter reference at the each-helper's own
/// level, without consuming the body.
pub fn check_for_indexer(src: &str) -> (r: Result<bool, ParseError>)
    ensures
        match r {
            Ok(b) => spec_cfi(src@, 1) == Ok::<bool, ErrorKind>(b),
            Err(e) => spec_cfi(src@, 1) == Err::<bool, ErrorKind>(e.kind),
        },
{
    let n_src = src.unicode_len();
    let mut exp = Expression::from(src)?;
    let ghost mut cur_src: Seq<char> = src@;
    let mut depth: usize = 1;
    loop
        invariant
            depth >= 1,
            n_src == src@.len(),
            depth * 6 + cur_src.len() <= src@.len() + 6,
            spec_cfi(src@, 1) == spec_cfi(cur_src, depth as int),
            match exp {
                Some(e) => spec_from(cur_src) == Ok::<Option<crate::expression::ExprModel>, ErrorKind>(
                    Some(e@),
                ),
                None => spec_from(cur_src) == Ok::<Option<crate::expression::ExprModel>, ErrorKind>(
                    None,
                ),
            },
        decreases cur_src.len(),
    {
        proof {
            lemma_from_shrinks(cur_src);
        }
        match exp {
            None => {
                return Ok(false);
            },
            Some(expr) => {
                let ghost m = expr@;
                match expr.expression_type {
                    crate::expression::ExpressionType::Comment => {},
                    crate::expression::ExpressionType::Escaped => {},
                    crate::expression::ExpressionType::Open => {
                        if contains_indexer(expr.content, depth - 1) {
                            return Ok(true);
                        }
                        depth = depth + 1;
                    },
                    crate::expression::ExpressionType::Close => {
                        depth = depth - 1;
                        if depth == 0 {
                            return Ok(false);
                        }
                    },
                    _ => {
                        if contains_indexer(expr.content, depth - 1) {
                            return Ok(true);
                        }
                    },
                }
                proof {
                    assert(spec_cfi(src@, 1) == spec_cfi(m.postfix, depth as int));
                }
                exp = expr.next()?;
                proof {
                    cur_src = m.postfix;
                }
            },
        }
    }
}

/// Scans a block body for an else-marker at the block's own level,
/// without consuming the body.
pub fn check_for_else(src: &str) -> (r: Result<bool, ParseError>)
    ensures
        match r {
            Ok(b) => spec_cfe(src@, 1) == Ok::<bool, ErrorKind>(b),
            Err(e) => spec_cfe(src@, 1) == Err::<bool, ErrorKind>(e.kind),
        },
{
    let n_src = src.unicode_len();
    let mut exp = Expression::from(src)?;
    let ghost mut cur_src: Seq<char> = src@;
    let mut depth: usize = 1;
    loop
        invariant
            depth >= 1,
            n_src == src@.len(),
            depth * 6 + cur_src.len() <= src@.len() + 6,
            spec_cfe(src@, 1) == spec_cfe(cur_src, depth as int),
            match exp {
                Some(e) => spec_from(cur_src) == Ok::<Option<crate::expression::ExprModel>, ErrorKind>(
                    Some(e@),
                ),
                None => spec_from(cur_src) == Ok::<Option<crate::expression::ExprModel>, ErrorKind>(
                    None,
                ),
            },
        decreases cur_src.len(),
    {
        proof {
            lemma_from_shrinks(cur_src);
        }
        match exp {
            None => {
                return Ok(false);
            },
            Some(expr) => {
                let ghost m = expr@;
                match expr.expression_type {
                    crate::expression::ExpressionType::Comment => {},
                    crate::expression::ExpressionType::Escaped => {},
                    crate::expression::ExpressionType::Open => {
                        depth = depth + 1;
                    },
                    crate::expression::ExpressionType::Close => {
                        depth = depth - 1;
                        if depth == 0 {
                            return Ok(false);
                        }
                    },
                    _ => {
                        if str_eq(expr.content, "else") && depth == 1 {
                            return Ok(true);
                        }
                    },
                }
                proof {
                    assert(spec_cfe(src@, 1) == spec_cfe(m.postfix, depth as int));
                }
                exp = expr.next()?;
                proof {
                    cur_src = m.postfix;
                }
            },
        }
    }
}

} // verus!

verus! {


/// What opening a truth-test block emits: the needed capability, the
/// `if`-headed condition around the resolved argument, and the opening
/// brace. Exactly one argument is taken; a trailing token is a failure.
pub open spec fn spec_if_open(
    prefix: Seq<char>,
    stack: Seq<ScopeModel>,
    token: TokenModel,
    rust: RustModel,
) -> Result<(BlockModel, RustModel), ErrorKind> {
    match spec_parse(token.tail) {
        Err(k) => Err(k),
        Ok(None) => Err(ErrorKind::MissingRequiredArgument),
        Ok(Some(var)) => match spec_parse(var.tail) {
            Err(k) => Err(k),
            Ok(Some(extra)) => Err(ErrorKind::ArityMismatch),
            Ok(None) => {
                let rust1 = RustModel {
                    using: spec_insert_use(rust.using, "AsBool"@),
                    code: rust.code + prefix,
                };
                match spec_write_var(stack, rust1, var) {
                    Err(k) => Err(k),
                    Ok(rust2) => Ok(
                        (
                            BlockModel::IfOrUnless,
                            RustModel { using: rust2.using, code: rust2.code + ".as_bool(){"@ },
                        ),
                    ),
                }
            },
        },
    }
}

/// What opening an optional-unwrapping block emits: the binding pattern,
/// the resolved argument, and the opening brace.
pub open spec fn spec_if_some_open(
    by_ref: bool,
    stack: Seq<ScopeModel>,
    token: TokenModel,
    rust: RustModel,
) -> Result<(BlockModel, RustModel), ErrorKind> {
    match spec_parse(token.tail) {
        Err(k) => Err(k),
        Ok(None) => Err(ErrorKind::MissingRequiredArgument),
        Ok(Some(next)) => match spec_read_local(next) {
            Err(k) => Err(k),
            Ok(local) => {
                let code1 = spec_awd(
                    stack.len() as int,
                    spec_local_name(local),
                    rust.code + "if let Some("@,
                );
                let code2 = code1 + ") = "@ + (if by_ref {
                    seq!['&']
                } else {
                    Seq::<char>::empty()
                });
                match spec_write_var(stack, RustModel { using: rust.using, code: code2 }, next) {
                    Err(k) => Err(k),
                    Ok(rust2) => Ok(
                        (
                            BlockModel::IfSome { local },
                            RustModel { using: rust2.using, code: rust2.code + seq!['{'] },
                        ),
                    ),
                }
            },
        },
    }
}

/// What opening an aliasing block emits: a braced let-binding of the
/// resolved object under the block's binding.
pub open spec fn spec_with_open(
    by_ref: bool,
    stack: Seq<ScopeModel>,
    token: TokenModel,
    rust: RustModel,
) -> Result<(BlockModel, RustModel), ErrorKind> {
    match spec_parse(token.tail) {
        Err(k) => Err(k),
        Ok(None) => Err(ErrorKind::MissingRequiredArgument),
        Ok(Some(next)) => match spec_read_local(next) {
            Err(k) => Err(k),
            Ok(local) => {
                let code1 = spec_awd(
                    stack.len() as int,
                    spec_local_name(local),
                    rust.code + "{let "@,
                );
                let code2 = code1 + " = "@ + (if by_ref {
                    seq!['&']
                } else {
                    Seq::<char>::empty()
                });
                match spec_write_var(stack, RustModel { using: rust.using, code: code2 }, next) {
                    Err(k) => Err(k),
                    Ok(rust2) => Ok(
                        (
                            BlockModel::With { local },
                            RustModel { using: rust2.using, code: rust2.code + seq![';'] },
                        ),
                    ),
                }
            },
        },
    }
}

/// What opening a looping block emits: the counter declaration when the
/// body references the loop index, the else-wrapper flag when the body
/// holds an else-marker, and the loop head over the resolved iterable.
pub open spec fn spec_each_open(
    by_ref: bool,
    stack: Seq<ScopeModel>,
    token: TokenModel,
    postfix: Seq<char>,
    rust: RustModel,
) -> Result<(BlockModel, RustModel), ErrorKind> {
    match spec_parse(token.tail) {
        Err(k) => Err(k),
        Ok(None) => Err(ErrorKind::MissingRequiredArgument),
        Ok(Some(next)) => match spec_cfi(postfix, 1) {
            Err(k) => Err(k),
            Ok(found) => {
                let indexer: Option<Seq<char>> = if found {
                    Some("i_"@ + crate::strutil::spec_dec(stack.len() as nat))
                } else {
                    None
                };
                let code0 = if found {
                    rust.code + "let mut "@ + ("i_"@ + crate::strutil::spec_dec(
                        stack.len() as nat,
                    )) + " = 0;"@
                } else {
                    rust.code
                };
                match spec_read_local(next) {
                    Err(k) => Err(k),
                    Ok(local) => match spec_cfe(postfix, 1) {
                        Err(k) => Err(k),
                        Ok(has_else) => {
                            let code1 = code0 + (if has_else {
                                "{let mut empty = true;"@
                            } else {
                                Seq::<char>::empty()
                            });
                            let code2 = spec_awd(
                                stack.len() as int,
                                spec_local_name(local),
                                code1 + "for "@,
                            ) + " in "@ + (if by_ref {
                                seq!['&']
                            } else {
                                Seq::<char>::empty()
                            });
                            match spec_write_var(
                                stack,
                                RustModel { using: rust.using, code: code2 },
                                next,
                            ) {
                                Err(k) => Err(k),
                                Ok(rust2) => Ok(
                                    (
                                        BlockModel::Each { local, indexer, has_else },
                                        RustModel {
                                            using: rust2.using,
                                            code: rust2.code + seq!['{'] + (if has_else {
                                                "empty = false;"@
                                            } else {
                                                Seq::<char>::empty()
                                            }),
                                        },
                                    ),
                                ),
                            }
                        },
                    },
                }
            },
        },
    }
}

/// Dispatch from a factory to what its block's opening emits.
pub open spec fn spec_factory_open(
    f: BlockFactory,
    stack: Seq<ScopeModel>,
    token: TokenModel,
    postfix: Seq<char>,
    rust: RustModel,
) -> Result<(BlockModel, RustModel), ErrorKind> {
    match f {
        BlockFactory::If => spec_if_open("if "@, stack, token, rust),
        BlockFactory::Unless => spec_if_open("if !"@, stack, token, rust),
        BlockFactory::IfSome => spec_if_some_open(false, stack, token, rust),
        BlockFactory::IfSomeRef => spec_if_some_open(true, stack, token, rust),
        BlockFactory::With => spec_with_open(false, stack, token, rust),
        BlockFactory::WithRef => spec_with_open(true, stack, token, rust),
        BlockFactory::Each => spec_each_open(false, stack, token, postfix, rust),
        BlockFactory::EachRef => spec_each_open(true, stack, token, postfix, rust),
    }
}

fn if_or_unless_new<'a>(
    label: &str,
    prefix: &str,
    compile: &Compile<'a>,
    token: Token<'a>,
    expression: &Expression<'a>,
    rust: &mut Rust,
) -> (r: Result<Block, ParseError>)
    requires
        stack_wf(compile@.stack),
    ensures
        match r {
            Ok(b) => spec_if_open(prefix@, compile@.stack, token@, old(rust)@) == Ok::<
                (BlockModel, RustModel),
                ErrorKind,
            >((b@, final(rust)@)),
            Err(e) => spec_if_open(prefix@, compile@.stack, token@, old(rust)@) == Err::<
                (BlockModel, RustModel),
                ErrorKind,
            >(e.kind),
        },
{
    match token.next()? {
        Some(var) => {
            match var.next()? {
                Some(extra) => {
                    let mut m = String::new();
                    m.append("unexpected token after ");
                    m.append(label);
                    m.append(" condition: ");
                    m.append(extra.value);
                    return Err(ParseError { kind: ErrorKind::ArityMismatch, message: m });
                },
                None => {},
            }
            rust.insert_use("AsBool");
            rust.code.append(prefix);
            compile.write_var(expression, rust, var)?;
            rust.code.append(".as_bool(){");
            Ok(Block::IfOrUnless)
        },
        None => {
            let mut m = String::new();
            m.append("expected variable after ");
            m.append(label);
            Err(ParseError { kind: ErrorKind::MissingRequiredArgument, message: m })
        },
    }
}

fn if_some_new<'a>(
    by_ref: bool,
    compile: &Compile<'a>,
    token: Token<'a>,
    expression: &Expression<'a>,
    rust: &mut Rust,
) -> (r: Result<Block, ParseError>)
    requires
        stack_wf(compile@.stack),
    ensures
        match r {
            Ok(b) => spec_if_some_open(by_ref, compile@.stack, token@, old(rust)@) == Ok::<
                (BlockModel, RustModel),
                ErrorKind,
            >((b@, final(rust)@)),
            Err(e) => spec_if_some_open(by_ref, compile@.stack, token@, old(rust)@) == Err::<
                (BlockModel, RustModel),
                ErrorKind,
            >(e.kind),
        },
{
    let next = match token.next()? {
        Some(n) => n,
        None => {
            let mut m = String::new();
            m.append("expected variable after if_some");
            if by_ref {
                m.append("_ref");
            }
            return Err(ParseError { kind: ErrorKind::MissingRequiredArgument, message: m });
        },
    };
    let local = read_local(&next, expression)?;
    rust.code.append("if let Some(");
    compile.write_local(&mut rust.code, &local);
    rust.code.append(") = ");
    if by_ref {
        rust.code.append("&");
        proof {
            reveal_strlit("&");
            assert("&"@ =~= seq!['&']);
        }
    }
    compile.write_var(expression, rust, next)?;
    rust.code.append("{");
    proof {
        reveal_strlit("{");
        assert("{"@ =~= seq!['{']);
    }
    Ok(Block::IfSome { local })
}

fn with_new<'a>(
    by_ref: bool,
    compile: &Compile<'a>,
    token: Token<'a>,
    expression: &Expression<'a>,
    rust: &mut Rust,
) -> (r: Result<Block, ParseError>)
    requires
        stack_wf(compile@.stack),
    ensures
        match r {
            Ok(b) => spec_with_open(by_ref, compile@.stack, token@, old(rust)@) == Ok::<
                (BlockModel, RustModel),
                ErrorKind,
            >((b@, final(rust)@)),
            Err(e) => spec_with_open(by_ref, compile@.stack, token@, old(rust)@) == Err::<
                (BlockModel, RustModel),
                ErrorKind,
            >(e.kind),
        },
{
    let next = match token.next()? {
        Some(n) => n,
        None => {
            let mut m = String::new();
            m.append("expected variable after with");
            if by_ref {
                m.append("_ref");
            }
            return Err(ParseError { kind: ErrorKind::MissingRequiredArgument, message: m });
        },
    };
    let local = read_local(&next, expression)?;
    rust.code.append("{let ");
    compile.write_local(&mut rust.code, &local);
    rust.code.append(" = ");
    if by_ref {
        rust.code.append("&");
        proof {
            reveal_strlit("&");
            assert("&"@ =~= seq!['&']);
        }
    }
    compile.write_var(expression, rust, next)?;
    rust.code.append(";");
    proof {
        reveal_strlit(";");
        assert(";"@ =~= seq![';']);
    }
    Ok(Block::With { local })
}

fn each_new<'a>(
    by_ref: bool,
    compile: &Compile<'a>,
    token: Token<'a>,
    expression: &Expression<'a>,
    rust: &mut Rust,
) -> (r: Result<Block, ParseError>)
    requires
        stack_wf(compile@.stack),
    ensures
        match r {
            Ok(b) => spec_each_open(
                by_ref,
                compile@.stack,
                token@,
                expression@.postfix,
                old(rust)@,
            ) == Ok::<(BlockModel, RustModel), ErrorKind>((b@, final(rust)@)),
            Err(e) => spec_each_open(
                by_ref,
                compile@.stack,
                token@,
                expression@.postfix,
                old(rust)@,
            ) == Err::<(BlockModel, RustModel), ErrorKind>(e.kind),
        },
{
    let next = match token.next()? {
        Some(n) => n,
        None => {
            let mut m = String::new();
            m.append("expected variable after ");
            if by_ref {
                m.append("each_ref");
            } else {
                m.append("each");
            }
            return Err(ParseError { kind: ErrorKind::MissingRequiredArgument, message: m });
        },
    };
    let found = check_for_indexer(expression.postfix)?;
    let indexer: Option<String> = if found {
        let mut ind = String::new();
        ind.append("i_");
        let d = crate::strutil::format_usize(compile.open_stack.len());
        ind.append(d.as_str());
        rust.code.append("let mut ");
        rust.code.append(ind.as_str());
        rust.code.append(" = 0;");
        Some(ind)
    } else {
        None
    };
    let local = read_local(&next, expression)?;
    let has_else = check_for_else(expression.postfix)?;
    if has_else {
        rust.code.append("{let mut empty = true;");
    }
    rust.code.append("for ");
    compile.write_local(&mut rust.code, &local);
    rust.code.append(" in ");
    if by_ref {
        rust.code.append("&");
        proof {
            reveal_strlit("&");
            assert("&"@ =~= seq!['&']);
        }
    }
    compile.write_var(expression, rust, next)?;
    rust.code.append("{");
    proof {
        reveal_strlit("{");
        assert("{"@ =~= seq!['{']);
    }
    if has_else {
        rust.code.append("empty = false;");
    }
    Ok(Block::Each { local, indexer, has_else })
}

impl BlockFactory {
    /// Opens the block this factory makes: emits its opening code and
    /// hands back the block that now owns the new scope.
    pub fn open<'a>(
        &self,
        compile: &Compile<'a>,
        token: Token<'a>,
        expression: &Expression<'a>,
        rust: &mut Rust,
    ) -> (r: Result<Block, ParseError>)
        requires
            stack_wf(compile@.stack),
        ensures
            match r {
                Ok(b) => spec_factory_open(
                    *self,
                    compile@.stack,
                    token@,
                    expression@.postfix,
                    old(rust)@,
                ) == Ok::<(BlockModel, RustModel), ErrorKind>((b@, final(rust)@)),
                Err(e) => spec_factory_open(
                    *self,
                    compile@.stack,
                    token@,
                    expression@.postfix,
                    old(rust)@,
                ) == Err::<(BlockModel, RustModel), ErrorKind>(e.kind),
            },
    {
        match self {
            BlockFactory::If => if_or_unless_new("if", "if ", compile, token, expression, rust),
            BlockFactory::Unless => if_or_unless_new(
                "unless",
                "if !",
                compile,
                token,
                expression,
                rust,
            ),
            BlockFactory::IfSome => if_some_new(false, compile, token, expression, rust),
            BlockFactory::IfSomeRef => if_some_new(true, compile, token, expression, rust),
            BlockFactory::With => with_new(false, compile, token, expression, rust),
            BlockFactory::WithRef => with_new(true, compile, token, expression, rust),
            BlockFactory::Each => each_new(false, compile, token, expression, rust),
            BlockFactory::EachRef => each_new(true, compile, token, expression, rust),
        }
    }
}

} // verus!
