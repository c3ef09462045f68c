//! The compiler's data carriers and the write emitter: generated code
//! plus the ordered set of capability names it relies on, the options a
//! compilation runs under, and helpers that build hygienic depth-tagged
//! identifiers. The orchestrating resolver lives here as well.
use vstd::prelude::*;

verus! {

use vstd::string::StrSliceExecFns;
use vstd::string::StringExecFns;
use crate::block::{
    block_local, block_this, spec_resolve_private, stack_wf, Block, BlockFactory, BlockModel,
    Local, LocalModel, Scope, ScopeModel,
};
use crate::error::{ErrorKind, ParseError};
use crate::expression::{ExprModel, Expression, ExpressionType};
use crate::expression_tokenizer::{
    lemma_parse_bounds, spec_first, spec_parse, Token, TokenKindModel, TokenModel, TokenType,
};
use crate::strutil::{
    format_usize, lemma_trim_len, push_char, spec_dec, spec_starts_with, starts_with, str_eq,
};

/// Generated code together with the capability names it needs, kept
/// unique and in first-use order.
#[derive(Debug)]
pub struct Rust {
    pub using: Vec<String>,
    pub code: String,
}

/// The mathematical shadow of the generated output.
pub ghost struct RustModel {
    pub using: Seq<Seq<char>>,
    pub code: Seq<char>,
}

impl View for Rust {
    type V = RustModel;

    open spec fn view(&self) -> RustModel {
        RustModel { using: self.using.deep_view(), code: self.code@ }
    }
}

/// Inserting a capability name keeps the list unique: a name already
/// present leaves the list unchanged.
pub open spec fn spec_insert_use(using: Seq<Seq<char>>, name: Seq<char>) -> Seq<Seq<char>> {
    if using.contains(name) {
        using
    } else {
        using.push(name)
    }
}

impl Rust {
    /// Empty output: no code, no capabilities.
    pub fn new() -> (r: Self)
        ensures
            r@.using == Seq::<Seq<char>>::empty(),
            r@.code == Seq::<char>::empty(),
    {
        let r = Rust { using: Vec::new(), code: String::new() };
        proof {
            assert(r@.using =~= Seq::<Seq<char>>::empty());
        }
        r
    }

    /// The capability names as a renderable import line.
    pub fn uses(&self) -> (u: Uses<'_>)
        ensures
            u.uses.deep_view() == self@.using,
    {
        Uses { uses: &self.using }
    }

    /// Records one needed capability.
    pub fn insert_use(&mut self, name: &str)
        ensures
            final(self)@.using == spec_insert_use(old(self)@.using, name@),
            final(self)@.code == old(self)@.code,
    {
        let n = self.using.len();
        let mut i: usize = 0;
        while i < n
            invariant
                n == self.using@.len(),
                0 <= i <= n,
                *self == *old(self),
                forall|k: int| 0 <= k < i ==> self@.using[k] != name@,
            decreases n - i,
        {
            if str_eq(self.using[i].as_str(), name) {
                proof {
                    assert(self@.using.contains(name@)) by {
                        assert(self@.using[i as int] == name@);
                    }
                }
                return ;
            }
            i = i + 1;
        }
        proof {
            assert(!self@.using.contains(name@)) by {
                if self@.using.contains(name@) {
                    let k = choose|k: int|
                        0 <= k < self@.using.len() && self@.using[k] == name@;
                    assert(self@.using[k] != name@);
                }
            }
        }
        let owned = String::from_str(name);
        self.using.push(owned);
        proof {
            assert(final(self)@.using =~= spec_insert_use(old(self)@.using, name@));
        }
    }
}

/// What the import line of a finished compilation renders as.
pub open spec fn spec_uses_items(names: Seq<Seq<char>>, i: int) -> Seq<char>
    decreases names.len() - i,
{
    if i < 0 || i >= names.len() {
        Seq::empty()
    } else {
        (if i == 0 {
            seq!['{']
        } else {
            seq![',']
        }) + names[i] + spec_uses_items(names, i + 1)
    }
}

pub open spec fn spec_uses_string(names: Seq<Seq<char>>) -> Seq<char> {
    if names.len() == 0 {
        Seq::empty()
    } else if names.len() == 1 {
        "use rusty_handlebars::"@ + names[0]
    } else {
        "use rusty_handlebars::"@ + spec_uses_items(names, 0) + seq!['}']
    }
}

/// A view over the capability names, rendered as the import line the
/// generated code needs.
pub struct Uses<'a> {
    pub uses: &'a Vec<String>,
}

impl<'a> Uses<'a> {
    /// Renders the import line: empty for no capability, a single plain
    /// import for one, a braced list for several.
    pub fn to_string(&self) -> (r: String)
        ensures
            r@ == spec_uses_string(self.uses.deep_view()),
    {
        let ghost names = self.uses.deep_view();
        let n = self.uses.len();
        let mut out = String::new();
        if n == 0 {
            return out;
        }
        out.append("use rusty_handlebars::");
        if n == 1 {
            out.append(self.uses[0].as_str());
            proof {
                assert(names[0] == self.uses@[0]@);
            }
            return out;
        }
        let ghost head = out@;
        let mut i: usize = 0;
        while i < n
            invariant
                n == self.uses@.len(),
                n >= 2,
                names == self.uses.deep_view(),
                0 <= i <= n,
                head + spec_uses_items(names, 0) == out@ + spec_uses_items(names, i as int),
            decreases n - i,
        {
            if i == 0 {
                out.append("{");
                proof {
                    reveal_strlit("{");
                }
            } else {
                out.append(",");
                proof {
                    reveal_strlit(",");
                }
            }
            out.append(self.uses[i].as_str());
            proof {
                assert(names[i as int] == self.uses@[i as int]@);
            }
            i = i + 1;
        }
        out.append("}");
        proof {
            reveal_strlit("}");
            assert(out@ =~= head + spec_uses_items(names, 0) + seq!['}']);
        }
        out
    }
}

/// The options one compilation runs under: the optional name of the root
/// object every bare path hangs off, and the identifier of the sink that
/// generated write calls target.
pub struct Options {
    pub root_var_name: Option<String>,
    pub write_var_name: String,
}

/// The mathematical shadow of the options.
pub ghost struct OptionsModel {
    pub root_var_name: Option<Seq<char>>,
    pub write_var_name: Seq<char>,
}

impl View for Options {
    type V = OptionsModel;

    open spec fn view(&self) -> OptionsModel {
        OptionsModel {
            root_var_name: match self.root_var_name {
                Some(ref s) => Some(s@),
                None => None,
            },
            write_var_name: self.write_var_name@,
        }
    }
}

/// The depth-tagged identifier `var_depth` appended to a buffer: the
/// hygiene rule that keeps same-named bindings in nested scopes apart.
pub open spec fn spec_awd(depth: int, var: Seq<char>, buffer: Seq<char>) -> Seq<char> {
    buffer + var + seq!['_'] + spec_dec(depth as nat)
}

pub fn append_with_depth(depth: usize, var: &str, buffer: &mut String)
    ensures
        final(buffer)@ == spec_awd(depth as int, var@, old(buffer)@),
{
    buffer.append(var);
    let d = format_usize(depth);
    push_char(buffer, '_');
    buffer.append(d.as_str());
}

/// The registry from helper names to the block factories that open them.
/// A later insertion under the same name shadows an earlier one.
pub struct BlockMap {
    entries: Vec<(String, BlockFactory)>,
}

impl View for BlockMap {
    type V = Seq<(Seq<char>, BlockFactory)>;

    closed spec fn view(&self) -> Seq<(Seq<char>, BlockFactory)> {
        self.entries@.map_values(|p: (String, BlockFactory)| (p.0@, p.1))
    }
}

/// Lookup walks from the most recent entry back.
pub open spec fn spec_map_get(
    entries: Seq<(Seq<char>, BlockFactory)>,
    name: Seq<char>,
) -> Option<BlockFactory>
    decreases entries.len(),
{
    if entries.len() == 0 {
        None
    } else if entries.last().0 == name {
        Some(entries.last().1)
    } else {
        spec_map_get(entries.drop_last(), name)
    }
}

impl BlockMap {
    /// An empty registry.
    pub fn new() -> (r: Self)
        ensures
            r@ == Seq::<(Seq<char>, BlockFactory)>::empty(),
    {
        let r = BlockMap { entries: Vec::new() };
        proof {
            assert(r@ =~= Seq::<(Seq<char>, BlockFactory)>::empty());
        }
        r
    }

    /// Registers a factory under a helper name.
    pub fn insert(&mut self, name: &str, factory: BlockFactory)
        ensures
            final(self)@ == old(self)@.push((name@, factory)),
    {
        let owned = String::from_str(name);
        self.entries.push((owned, factory));
        proof {
            assert(final(self)@ =~= old(self)@.push((name@, factory)));
        }
    }

    /// Finds the factory registered under a helper name, preferring the
    /// most recent registration.
    pub fn get(&self, name: &str) -> (r: Option<BlockFactory>)
        ensures
            r == spec_map_get(self@, name@),
    {
        let n = self.entries.len();
        proof {
            assert(self@.subrange(0, n as int) =~= self@);
        }
        let mut i: usize = n;
        while i > 0
            invariant
                n == self.entries@.len(),
                0 <= i <= n,
                spec_map_get(self@, name@) == spec_map_get(
                    self@.subrange(0, i as int),
                    name@,
                ),
            decreases i,
        {
            let ghost pre = self@.subrange(0, i as int);
            if str_eq(self.entries[i - 1].0.as_str(), name) {
                proof {
                    assert(pre.last() == (self.entries@[i - 1].0@, self.entries@[i - 1].1));
                }
                return Some(self.entries[i - 1].1);
            }
            proof {
                assert(pre.last() == (self.entries@[i - 1].0@, self.entries@[i - 1].1));
                assert(pre.drop_last() =~= self@.subrange(0, i - 1));
            }
            i = i - 1;
        }
        proof {
            assert(self@.subrange(0, 0) =~= Seq::<(Seq<char>, BlockFactory)>::empty());
        }
        None
    }
}

} // verus!

verus! {

/// Resolving a path's leading parent-traversal markers: each `../` moves
/// one scope towards the root, and one too many is a failure.
pub open spec fn spec_find_scope(
    stack: Seq<ScopeModel>,
    local: Seq<char>,
    idx: int,
) -> Result<(Seq<char>, int), ErrorKind>
    decreases local.len(),
{
    if spec_starts_with(local, seq!['.', '.', '/']) {
        if idx == 0 {
            Err(ErrorKind::UnresolvableScopeReference)
        } else {
            spec_find_scope(stack, local.subrange(3, local.len() as int), idx - 1)
        }
    } else {
        Ok((local, idx))
    }
}

/// A named binding absorbs a path that names it exactly or continues it
/// with a dot: the binding becomes its depth-tagged identifier.
pub open spec fn spec_resolve_local(
    depth: int,
    var: Seq<char>,
    local: Seq<char>,
    buffer: Seq<char>,
) -> (bool, Seq<char>) {
    if spec_starts_with(var, local) {
        let len = local.len() as int;
        if var.len() > len {
            if var[len] != '.' {
                (false, buffer)
            } else {
                (true, spec_awd(depth, local, buffer) + var.subrange(len, var.len() as int))
            }
        } else {
            (true, spec_awd(depth, local, buffer))
        }
    } else {
        (false, buffer)
    }
}

/// Resolving a path at a scope: the root qualifies it with the root
/// object's name; a binding absorbs it; otherwise the parent resolves it.
pub open spec fn spec_resolve_var(
    stack: Seq<ScopeModel>,
    idx: int,
    var: Seq<char>,
    buffer: Seq<char>,
) -> Seq<char>
    decreases idx,
    when 0 <= idx < stack.len()
{
    let scope = stack[idx];
    if idx == 0 {
        match block_this(scope.opened) {
            Some(t) => buffer + t + seq!['.'] + var,
            None => buffer + var,
        }
    } else {
        let attempt = match block_local(scope.opened) {
            LocalModel::As(local) => spec_resolve_local(scope.depth, var, local, buffer),
            LocalModel::This => (
                true,
                buffer + "this_"@ + spec_dec(scope.depth as nat) + (if var != "this"@ {
                    seq!['.'] + var
                } else {
                    Seq::<char>::empty()
                }),
            ),
            LocalModel::Bare => (false, buffer),
        };
        if attempt.0 {
            attempt.1
        } else {
            match block_this(scope.opened) {
                Some(t) => {
                    let b2 = spec_resolve_var(stack, idx - 1, t, buffer);
                    if var != t {
                        b2 + seq!['.'] + var
                    } else {
                        b2
                    }
                },
                None => spec_resolve_var(stack, idx - 1, var, buffer),
            }
        }
    }
}

/// Emitting one argument token: a private variable through the owning
/// block, a path through the scope chain, a literal verbatim, and a
/// sub-expression by recursive compilation.
pub open spec fn spec_write_var(
    stack: Seq<ScopeModel>,
    rust: RustModel,
    var: TokenModel,
) -> Result<RustModel, ErrorKind>
    decreases (match var.kind {
        TokenKindModel::SubExpression(_) => var.value.len() + 2,
        _ => 0,
    }), 1int,
{
    match var.kind {
        TokenKindModel::PrivateVariable => match spec_find_scope(
            stack,
            var.value,
            stack.len() - 1,
        ) {
            Err(k) => Err(k),
            Ok((name, idx)) => spec_resolve_private(stack[idx].opened, stack[idx].depth, name, rust),
        },
        TokenKindModel::Variable => match spec_find_scope(stack, var.value, stack.len() - 1) {
            Err(k) => Err(k),
            Ok((name, idx)) => Ok(
                RustModel { using: rust.using, code: spec_resolve_var(stack, idx, name, rust.code) },
            ),
        },
        TokenKindModel::Literal => Ok(
            RustModel { using: rust.using, code: rust.code + var.value },
        ),
        TokenKindModel::SubExpression(raw) => spec_resolve_sub(stack, raw, var.value, rust),
    }
}

/// A sub-expression compiles as a parenthesized value expression.
pub open spec fn spec_resolve_sub(
    stack: Seq<ScopeModel>,
    raw: Seq<char>,
    value: Seq<char>,
    rust: RustModel,
) -> Result<RustModel, ErrorKind>
    decreases value.len() + 1, 0int,
{
    spec_resolve(
        stack,
        ExprModel {
            kind: ExpressionType::Raw,
            prefix: "("@,
            content: value,
            postfix: ")"@,
            raw,
        },
        rust,
    )
}

/// Emitting one value expression: its first token decides between a
/// sub-expression, the two-argument lookup form, and a helper-style call
/// whose arguments follow in parentheses.
pub open spec fn spec_resolve(
    stack: Seq<ScopeModel>,
    expr: ExprModel,
    rust: RustModel,
) -> Result<RustModel, ErrorKind>
    decreases expr.content.len(), 3int,
    via spec_resolve_decreases
{
    match spec_first(expr.content) {
        Err(k) => Err(k),
        Ok(None) => Err(ErrorKind::EmptyBlockContent),
        Ok(Some(token)) => match token.kind {
            TokenKindModel::SubExpression(raw) => {
                let rust1 = RustModel { using: rust.using, code: rust.code + expr.prefix };
                match spec_resolve_sub(stack, raw, token.value, rust1) {
                    Err(k) => Err(k),
                    Ok(rust2) => Ok(
                        RustModel { using: rust2.using, code: rust2.code + expr.postfix },
                    ),
                }
            },
            _ => {
                if token.value == "lookup"@ {
                    let rust1 = RustModel { using: rust.using, code: rust.code + expr.prefix };
                    match spec_parse(token.tail) {
                        Err(k) => Err(k),
                        Ok(None) => Err(ErrorKind::MissingRequiredArgument),
                        Ok(Some(t1)) => match spec_write_var(stack, rust1, t1) {
                            Err(k) => Err(k),
                            Ok(rust2) => match spec_parse(t1.tail) {
                                Err(k) => Err(k),
                                Ok(None) => Err(ErrorKind::ArityMismatch),
                                Ok(Some(t2)) => {
                                    let rust3 = RustModel {
                                        using: rust2.using,
                                        code: rust2.code + ".get("@,
                                    };
                                    match spec_write_var(stack, rust3, t2) {
                                        Err(k) => Err(k),
                                        Ok(rust4) => Ok(
                                            RustModel {
                                                using: rust4.using,
                                                code: rust4.code + seq![')'] + expr.postfix,
                                            },
                                        ),
                                    }
                                },
                            },
                        },
                    }
                } else {
                    let rust1 = RustModel { using: rust.using, code: rust.code + expr.prefix };
                    match spec_write_var(stack, rust1, token) {
                        Err(k) => Err(k),
                        Ok(rust2) => spec_resolve_args(
                            stack,
                            token.tail,
                            rust2,
                            true,
                            expr.postfix,
                        ),
                    }
                }
            },
        },
    }
}

#[via_fn]
proof fn spec_resolve_decreases(stack: Seq<ScopeModel>, expr: ExprModel, rust: RustModel) {
    lemma_first_bounds(expr.content);
    match spec_first(expr.content) {
        Ok(Some(token)) => {
            lemma_parse_bounds(token.tail);
            match spec_parse(token.tail) {
                Ok(Some(t1)) => {
                    lemma_parse_bounds(t1.tail);
                },
                _ => {},
            }
        },
        _ => {},
    }
}

/// The argument tokens after a call's head: each is emitted behind an
/// opening parenthesis or a comma, and a close follows the last.
pub open spec fn spec_resolve_args(
    stack: Seq<ScopeModel>,
    tail: Seq<char>,
    rust: RustModel,
    first: bool,
    postfix: Seq<char>,
) -> Result<RustModel, ErrorKind>
    decreases tail.len(), 2int,
    via spec_resolve_args_decreases
{
    match spec_parse(tail) {
        Err(k) => Err(k),
        Ok(None) => Ok(
            RustModel {
                using: rust.using,
                code: (if first {
                    rust.code
                } else {
                    rust.code + seq![')']
                }) + postfix,
            },
        ),
        Ok(Some(t)) => {
            let rust1 = RustModel {
                using: rust.using,
                code: rust.code + (if first {
                    seq!['(']
                } else {
                    seq![',']
                }),
            };
            match spec_write_var(stack, rust1, t) {
                Err(k) => Err(k),
                Ok(rust2) => spec_resolve_args(stack, t.tail, rust2, false, postfix),
            }
        },
    }
}

#[via_fn]
proof fn spec_resolve_args_decreases(
    stack: Seq<ScopeModel>,
    tail: Seq<char>,
    rust: RustModel,
    first: bool,
    postfix: Seq<char>,
) {
    lemma_parse_bounds(tail);
}

/// Reading a marker's first token consumes input, and a sub-expression
/// token nests strictly inside the text it was read from.
pub proof fn lemma_first_bounds(src: Seq<char>)
    ensures
        match spec_first(src) {
            Ok(Some(t)) => t.tail.len() < src.len() && t.value.len() <= src.len() && match t.kind {
                TokenKindModel::SubExpression(raw) => t.value.len() + 2 <= src.len(),
                _ => true,
            },
            _ => true,
        },
{
    lemma_trim_len(src);
    lemma_parse_bounds(crate::strutil::spec_trim(src));
}

} // verus!

verus! {

/// The in-flight state of one compilation: the stack of open scopes and
/// the helper registry it resolves block names against.
pub struct Compile<'a> {
    pub open_stack: Vec<Scope>,
    pub block_map: &'a BlockMap,
}

/// The mathematical shadow of the compilation state.
pub ghost struct CompileModel {
    pub stack: Seq<ScopeModel>,
    pub map: Seq<(Seq<char>, BlockFactory)>,
}

impl<'a> View for Compile<'a> {
    type V = CompileModel;

    open spec fn view(&self) -> CompileModel {
        CompileModel {
            stack: self.open_stack@.map_values(|s: Scope| s@),
            map: self.block_map@,
        }
    }
}

impl<'a> Compile<'a> {
    /// A fresh compilation: only the root scope is open, carrying the
    /// optional root object name.
    pub fn new(this: Option<String>, block_map: &'a BlockMap) -> (r: Self)
        ensures
            r@.map == block_map@,
            r@.stack =~= seq![
                ScopeModel {
                    depth: 0,
                    opened: BlockModel::Root {
                        this: match this {
                            Some(s) => Some(s@),
                            None => None,
                        },
                    },
                    name: Seq::empty(),
                },
            ],
            stack_wf(r@.stack),
    {
        let mut open_stack: Vec<Scope> = Vec::new();
        open_stack.push(Scope { depth: 0, opened: Block::Root { this }, name: String::new() });
        Compile { open_stack, block_map }
    }

    /// Strips a path's leading parent-traversal markers, walking one
    /// scope towards the root for each, and hands back the stripped path
    /// with the scope it landed on.
    pub fn find_scope<'b>(&'b self, var: &'a str) -> (r: Result<(&'a str, &'b Scope), ParseError>)
        requires
            stack_wf(self@.stack),
        ensures
            match r {
                Ok(p) => spec_find_scope(self@.stack, var@, self@.stack.len() - 1) == Ok::<
                    (Seq<char>, int),
                    ErrorKind,
                >((p.0@, p.1.depth as int)) && p.1.depth < self@.stack.len() && p.1@
                    == self@.stack[p.1.depth as int],
                Err(e) => spec_find_scope(self@.stack, var@, self@.stack.len() - 1) == Err::<
                    (Seq<char>, int),
                    ErrorKind,
                >(e.kind),
            },
    {
        proof {
            reveal_strlit("../");
            assert("../"@ =~= seq!['.', '.', '/']);
        }
        let mut idx: usize = self.open_stack.len() - 1;
        let mut local: &'a str = var;
        loop
            invariant
                stack_wf(self@.stack),
                idx < self@.stack.len(),
                spec_find_scope(self@.stack, var@, self@.stack.len() - 1) == spec_find_scope(
                    self@.stack,
                    local@,
                    idx as int,
                ),
                "../"@ =~= seq!['.', '.', '/'],
            decreases local@.len(),
        {
            if starts_with(local, "../") {
                let depth = self.open_stack[idx].depth;
                proof {
                    assert(self@.stack[idx as int].depth == idx as int);
                }
                if depth == 0 {
                    let mut m = String::new();
                    m.append("unable to resolve scope for ");
                    m.append(var);
                    return Err(
                        ParseError { kind: ErrorKind::UnresolvableScopeReference, message: m },
                    );
                }
                let n = local.unicode_len();
                local = local.substring_char(3, n);
                idx = idx - 1;
            } else {
                return Ok((local, &self.open_stack[idx]));
            }
        }
    }

    /// Substitutes a named binding for the path it absorbs.
    pub fn resolve_local(&self, depth: usize, var: &str, local: &str, buffer: &mut String) -> (r:
        bool)
        ensures
            ({
                let p = spec_resolve_local(depth as int, var@, local@, old(buffer)@);
                r == p.0 && final(buffer)@ == p.1
            }),
    {
        if starts_with(var, local) {
            let len = local.unicode_len();
            let vlen = var.unicode_len();
            if vlen > len {
                if var.get_char(len) != '.' {
                    return false;
                }
                append_with_depth(depth, local, buffer);
                buffer.append(var.substring_char(len, vlen));
            } else {
                append_with_depth(depth, local, buffer);
            }
            return true;
        }
        false
    }

    /// Writes the target expression a path resolves to, walking the
    /// scope chain from the landing scope towards the root.
    pub fn resolve_var(&self, var: &str, scope: &Scope, buffer: &mut String) -> (r: Result<
        (),
        ParseError,
    >)
        requires
            stack_wf(self@.stack),
            scope.depth < self@.stack.len(),
            scope@ == self@.stack[scope.depth as int],
        ensures
            r is Ok,
            final(buffer)@ == spec_resolve_var(
                self@.stack,
                scope.depth as int,
                var@,
                old(buffer)@,
            ),
        decreases scope.depth,
    {
        if scope.depth == 0 {
            match scope.opened.this() {
                Some(t) => {
                    buffer.append(t);
                    push_char(buffer, '.');
                    buffer.append(var);
                    proof {
                        assert(final(buffer)@ =~= old(buffer)@ + t@ + seq!['.'] + var@);
                    }
                },
                None => {
                    buffer.append(var);
                },
            }
            return Ok(());
        }
        let hit: bool = match &scope.opened {
            Block::IfSome { local } => self.resolve_binding(scope.depth, var, local, buffer),
            Block::With { local } => self.resolve_binding(scope.depth, var, local, buffer),
            Block::Each { local, .. } => self.resolve_binding(scope.depth, var, local, buffer),
            _ => false,
        };
        if hit {
            return Ok(());
        }
        let parent = &self.open_stack[scope.depth - 1];
        proof {
            assert(self@.stack[scope.depth - 1] == parent@);
        }
        match scope.opened.this() {
            Some(t) => {
                self.resolve_var(t, parent, buffer)?;
                if !str_eq(var, t) {
                    push_char(buffer, '.');
                    buffer.append(var);
                    proof {
                        assert(final(buffer)@ =~= spec_resolve_var(
                            self@.stack,
                            scope.depth - 1,
                            t@,
                            old(buffer)@,
                        ) + seq!['.'] + var@);
                    }
                }
            },
            None => {
                self.resolve_var(var, parent, buffer)?;
            },
        }
        Ok(())
    }

    /// The binding attempt of one scope, shared by the block variants
    /// that carry a binding.
    fn resolve_binding(&self, depth: usize, var: &str, local: &Local, buffer: &mut String) -> (r:
        bool)
        ensures
            ({
                let attempt = match local@ {
                    LocalModel::As(l) => spec_resolve_local(depth as int, var@, l, old(buffer)@),
                    LocalModel::This => (
                        true,
                        old(buffer)@ + "this_"@ + spec_dec(depth as nat) + (if var@ != "this"@ {
                            seq!['.'] + var@
                        } else {
                            Seq::<char>::empty()
                        }),
                    ),
                    LocalModel::Bare => (false, old(buffer)@),
                };
                r == attempt.0 && final(buffer)@ == attempt.1
            }),
    {
        match local {
            Local::As(name) => self.resolve_local(depth, var, name.as_str(), buffer),
            Local::This => {
                buffer.append("this_");
                let d = format_usize(depth);
                buffer.append(d.as_str());
                if !str_eq(var, "this") {
                    push_char(buffer, '.');
                    buffer.append(var);
                    proof {
                        assert(final(buffer)@ =~= old(buffer)@ + "this_"@ + spec_dec(depth as nat)
                            + seq!['.'] + var@);
                    }
                }
                true
            },
            Local::Bare => false,
        }
    }
}

} // verus!

verus! {

/// Closing the innermost block: the close marker must repeat the helper
/// name the block was opened under, and the root cannot be closed.
pub open spec fn spec_close_block(
    stack: Seq<ScopeModel>,
    content: Seq<char>,
    rust: RustModel,
) -> Result<(Seq<ScopeModel>, RustModel), ErrorKind> {
    if stack.len() <= 1 {
        Err(ErrorKind::MismatchedBlockClose)
    } else if crate::strutil::spec_trim(content) != stack.last().name {
        Err(ErrorKind::MismatchedBlockClose)
    } else {
        Ok((stack.drop_last(), crate::block::spec_handle_close(stack.last().opened, rust)))
    }
}

impl<'a> Compile<'a> {
    /// Emits one argument token into the generated code: a private
    /// variable through its owning block, a path through the scope
    /// chain, a quoted or numeric literal verbatim, a sub-expression by
    /// recursive compilation. Hands the token back for chaining.
    pub fn write_var(&self, expression: &Expression<'a>, rust: &mut Rust, var: Token<'a>) -> (r:
        Result<Option<Token<'a>>, ParseError>)
        requires
            stack_wf(self@.stack),
        ensures
            match r {
                Ok(t) => t matches Some(tok) && (match t {
                    Some(tok) => tok@ == var@,
                    None => false,
                }) && spec_write_var(self@.stack, old(rust)@, var@) == Ok::<RustModel, ErrorKind>(
                    final(rust)@,
                ),
                Err(e) => spec_write_var(self@.stack, old(rust)@, var@) == Err::<
                    RustModel,
                    ErrorKind,
                >(e.kind),
            },
        decreases (match var.token_type {
            TokenType::SubExpression(_) => var.value@.len() + 2,
            _ => 0,
        }), 1int,
    {
        match &var.token_type {
            TokenType::PrivateVariable => {
                let (name, scope) = match self.find_scope(var.value) {
                    Ok(p) => p,
                    Err(e) => {
                        return Err(e);
                    },
                };
                match scope.opened.resolve_private(scope.depth, name, rust) {
                    Ok(()) => Ok(Some(var)),
                    Err(k) => Err(ParseError::new(k, "unexpected variable", expression)),
                }
            },
            TokenType::Variable => {
                let (name, scope) = match self.find_scope(var.value) {
                    Ok(p) => p,
                    Err(e) => {
                        return Err(e);
                    },
                };
                let res = self.resolve_var(name, scope, &mut rust.code);
                match res {
                    Ok(()) => Ok(Some(var)),
                    Err(e) => Err(e),
                }
            },
            TokenType::Literal => {
                rust.code.append(var.value);
                Ok(Some(var))
            },
            TokenType::SubExpression(raw) => {
                let res = self.resolve_sub_expression(raw, var.value, rust);
                match res {
                    Ok(()) => Ok(Some(var)),
                    Err(e) => Err(e),
                }
            },
        }
    }

    /// Compiles a parenthesized sub-expression in place.
    fn resolve_sub_expression(&self, raw: &'a str, value: &'a str, rust: &mut Rust) -> (r: Result<
        (),
        ParseError,
    >)
        requires
            stack_wf(self@.stack),
        ensures
            match r {
                Ok(()) => spec_resolve_sub(self@.stack, raw@, value@, old(rust)@) == Ok::<
                    RustModel,
                    ErrorKind,
                >(final(rust)@),
                Err(e) => spec_resolve_sub(self@.stack, raw@, value@, old(rust)@) == Err::<
                    RustModel,
                    ErrorKind,
                >(e.kind),
            },
        decreases value@.len() + 1, 0int,
    {
        self.resolve(
            &Expression {
                expression_type: ExpressionType::Raw,
                prefix: "(",
                content: value,
                postfix: ")",
                raw,
            },
            rust,
        )
    }

    /// Emits one whole value expression: its head token and, for a
    /// helper-style call, its argument list.
    pub fn resolve(&self, expression: &Expression<'a>, rust: &mut Rust) -> (r: Result<
        (),
        ParseError,
    >)
        requires
            stack_wf(self@.stack),
        ensures
            match r {
                Ok(()) => spec_resolve(self@.stack, expression@, old(rust)@) == Ok::<
                    RustModel,
                    ErrorKind,
                >(final(rust)@),
                Err(e) => spec_resolve(self@.stack, expression@, old(rust)@) == Err::<
                    RustModel,
                    ErrorKind,
                >(e.kind),
            },
        decreases expression.content@.len(), 3int,
    {
        proof {
            lemma_first_bounds(expression.content@);
        }
        let token = match Token::first(expression.content) {
            Ok(Some(token)) => token,
            Ok(None) => {
                return Err(
                    ParseError::new(ErrorKind::EmptyBlockContent, "expected token", expression),
                );
            },
            Err(e) => {
                return Err(e);
            },
        };
        if let TokenType::SubExpression(raw) = &token.token_type {
            rust.code.append(expression.prefix);
            let res = self.resolve_sub_expression(raw, token.value, rust);
            match res {
                Ok(()) => {},
                Err(e) => {
                    return Err(e);
                },
            }
            rust.code.append(expression.postfix);
            return Ok(());
        }
        if str_eq(token.value, "lookup") {
            rust.code.append(expression.prefix);
            proof {
                lemma_parse_bounds(token@.tail);
            }
            match token.next()? {
                Some(t1) => {
                    let ghost t1_model = t1@;
                    proof {
                        lemma_parse_bounds(t1_model.tail);
                    }
                    let w1 = self.write_var(expression, rust, t1)?;
                    let n2 = match w1 {
                        Some(tk) => tk.next()?,
                        None => None,
                    };
                    let t2 = match n2 {
                        Some(t) => t,
                        None => {
                            return Err(
                                ParseError::new(
                                    ErrorKind::ArityMismatch,
                                    "lookup expects 2 arguments",
                                    expression,
                                ),
                            );
                        },
                    };
                    rust.code.append(".get(");
                    self.write_var(expression, rust, t2)?;
                    push_char(&mut rust.code, ')');
                    rust.code.append(expression.postfix);
                    proof {
                        assert(final(rust)@.code =~= spec_resolve(
                            self@.stack,
                            expression@,
                            old(rust)@,
                        ).unwrap().code);
                    }
                    Ok(())
                },
                None => Err(
                    ParseError::new(
                        ErrorKind::MissingRequiredArgument,
                        "calling lookup without argments",
                        expression,
                    ),
                ),
            }
        } else {
            rust.code.append(expression.prefix);
            let w0 = self.write_var(expression, rust, token)?;
            let ghost mut tail_cur: Seq<char>;
            let mut next = match w0 {
                Some(tk) => {
                    proof {
                        tail_cur = tk@.tail;
                    }
                    tk.next()?
                },
                None => {
                    proof {
                        tail_cur = Seq::empty();
                    }
                    None
                },
            };
            let mut glue: char = '(';
            loop
                invariant
                    stack_wf(self@.stack),
                    glue == '(' || glue == ',',
                    tail_cur.len() < expression.content@.len(),
                    match next {
                        Some(t) => spec_parse(tail_cur) == Ok::<Option<TokenModel>, ErrorKind>(
                            Some(t@),
                        ),
                        None => spec_parse(tail_cur) == Ok::<Option<TokenModel>, ErrorKind>(None),
                    },
                    spec_resolve(self@.stack, expression@, old(rust)@) == spec_resolve_args(
                        self@.stack,
                        tail_cur,
                        rust@,
                        glue == '(',
                        expression@.postfix,
                    ),
                ensures
                    next is None,
                decreases tail_cur.len(),
            {
                match next {
                    None => {
                        break ;
                    },
                    Some(tok) => {
                        let ghost tok_model = tok@;
                        let ghost entry_args = spec_resolve_args(
                            self@.stack,
                            tail_cur,
                            rust@,
                            glue == '(',
                            expression@.postfix,
                        );
                        let ghost pre_code = rust@.code;
                        let ghost pre_using = rust@.using;
                        let ghost was_first = glue == '(';
                        proof {
                            lemma_parse_bounds(tail_cur);
                            lemma_parse_bounds(tok_model.tail);
                        }
                        push_char(&mut rust.code, glue);
                        proof {
                            assert(rust@.code =~= pre_code + (if was_first {
                                seq!['(']
                            } else {
                                seq![',']
                            }));
                            assert(rust@ == RustModel {
                                using: pre_using,
                                code: pre_code + (if was_first {
                                    seq!['(']
                                } else {
                                    seq![',']
                                }),
                            });
                        }
                        let wr = self.write_var(expression, rust, tok)?;
                        proof {
                            assert(entry_args == spec_resolve_args(
                                self@.stack,
                                tok_model.tail,
                                rust@,
                                false,
                                expression@.postfix,
                            ));
                        }
                        next = match wr {
                            Some(tk) => tk.next()?,
                            None => None,
                        };
                        proof {
                            tail_cur = tok_model.tail;
                        }
                        glue = ',';
                    },
                }
            }
            let ghost exit_args = spec_resolve_args(
                self@.stack,
                tail_cur,
                rust@,
                glue == '(',
                expression@.postfix,
            );
            let ghost pre_code = rust@.code;
            let ghost pre_using = rust@.using;
            let ghost was_first = glue == '(';
            if glue == ',' {
                push_char(&mut rust.code, ')');
                proof {
                    assert(rust@.code =~= pre_code + seq![')']);
                }
            }
            rust.code.append(expression.postfix);
            proof {
                assert(rust@.code =~= (if was_first {
                    pre_code
                } else {
                    pre_code + seq![')']
                }) + expression@.postfix);
                assert(exit_args == Ok::<RustModel, ErrorKind>(rust@));
            }
            Ok(())
        }
    }

    /// Routes an else-marker to the innermost open block.
    pub fn handle_else(&self, expression: &Expression<'a>, rust: &mut Rust) -> (r: Result<
        (),
        ParseError,
    >)
        requires
            stack_wf(self@.stack),
        ensures
            match r {
                Ok(()) => crate::block::spec_handle_else(self@.stack.last().opened, old(rust)@)
                    == Ok::<RustModel, ErrorKind>(final(rust)@),
                Err(e) => crate::block::spec_handle_else(self@.stack.last().opened, old(rust)@)
                    == Err::<RustModel, ErrorKind>(e.kind),
            },
    {
        let scope = &self.open_stack[self.open_stack.len() - 1];
        match scope.opened.handle_else(rust) {
            Ok(()) => Ok(()),
            Err(k) => Err(ParseError::new(k, "else not expected here", expression)),
        }
    }

    /// Closes the innermost block, popping its scope and emitting its
    /// closing code; closing with only the root open, or under a helper
    /// name other than the one the block was opened under, is a failure.
    pub fn close(&mut self, expression: Expression<'a>, rust: &mut Rust) -> (r: Result<
        (),
        ParseError,
    >)
        requires
            stack_wf(old(self)@.stack),
        ensures
            final(self)@.map == old(self)@.map,
            match r {
                Ok(()) => spec_close_block(old(self)@.stack, expression@.content, old(rust)@)
                    == Ok::<(Seq<ScopeModel>, RustModel), ErrorKind>(
                    (final(self)@.stack, final(rust)@),
                ) && stack_wf(final(self)@.stack),
                Err(e) => spec_close_block(old(self)@.stack, expression@.content, old(rust)@)
                    == Err::<(Seq<ScopeModel>, RustModel), ErrorKind>(e.kind) && final(self)@
                    == old(self)@ && final(rust)@ == old(rust)@,
            },
    {
        if self.open_stack.len() <= 1 {
            return Err(
                ParseError::new(ErrorKind::MismatchedBlockClose, "Mismatched block", &expression),
            );
        }
        let named = crate::strutil::trim(expression.content);
        if !str_eq(named, self.open_stack[self.open_stack.len() - 1].name.as_str()) {
            return Err(
                ParseError::new(ErrorKind::MismatchedBlockClose, "Mismatched block", &expression),
            );
        }
        let scope = match self.open_stack.pop() {
            Some(s) => s,
            None => {
                return Err(
                    ParseError::new(
                        ErrorKind::MismatchedBlockClose,
                        "Mismatched block",
                        &expression,
                    ),
                );
            },
        };
        scope.opened.handle_close(rust);
        proof {
            assert(final(self)@.stack =~= old(self)@.stack.drop_last());
        }
        Ok(())
    }
}

} // verus!

verus! {

use crate::block::spec_local_name;

impl<'a> Compile<'a> {
    /// Appends the depth-tagged identifier a block's binding will be
    /// declared under, at the depth of the scope about to open.
    pub fn write_local(&self, rust: &mut String, local: &Local)
        ensures
            final(rust)@ == spec_awd(
                self@.stack.len() as int,
                spec_local_name(local@),
                old(rust)@,
            ),
    {
        let name = match local {
            Local::As(l) => l.as_str(),
            _ => "this",
        };
        append_with_depth(self.open_stack.len(), name, rust);
    }
}

} // verus!

verus! {

use crate::block::{spec_factory_open, spec_handle_close, spec_handle_else};

/// Opening a block: the marker's first token names a registered helper,
/// whose factory emits the opening code; the new scope lands on top of
/// the stack with the next depth.
pub open spec fn spec_open(
    stack: Seq<ScopeModel>,
    map: Seq<(Seq<char>, BlockFactory)>,
    m: ExprModel,
    rust: RustModel,
) -> Result<(Seq<ScopeModel>, RustModel), ErrorKind> {
    match spec_first(m.content) {
        Err(k) => Err(k),
        Ok(None) => Err(ErrorKind::EmptyBlockContent),
        Ok(Some(token)) => match spec_map_get(map, token.value) {
            None => Err(ErrorKind::UnknownHelper),
            Some(f) => match spec_factory_open(f, stack, token, m.postfix, rust) {
                Err(k) => Err(k),
                Ok(p) => Ok(
                    (
                        stack.push(
                            ScopeModel {
                                opened: p.0,
                                depth: stack.len() as int,
                                name: token.value,
                            },
                        ),
                        p.1,
                    ),
                ),
            },
        },
    }
}

impl<'a> Compile<'a> {
    /// Opens the block a block-open marker names.
    pub fn open(&mut self, expression: Expression<'a>, rust: &mut Rust) -> (r: Result<
        (),
        ParseError,
    >)
        requires
            stack_wf(old(self)@.stack),
        ensures
            final(self)@.map == old(self)@.map,
            match r {
                Ok(()) => spec_open(old(self)@.stack, old(self)@.map, expression@, old(rust)@)
                    == Ok::<(Seq<ScopeModel>, RustModel), ErrorKind>(
                    (final(self)@.stack, final(rust)@),
                ) && stack_wf(final(self)@.stack),
                Err(e) => spec_open(old(self)@.stack, old(self)@.map, expression@, old(rust)@)
                    == Err::<(Seq<ScopeModel>, RustModel), ErrorKind>(e.kind) && final(self)@
                    == old(self)@,
            },
    {
        let token = match Token::first(expression.content)? {
            Some(token) => token,
            None => {
                return Err(
                    ParseError::new(ErrorKind::EmptyBlockContent, "expected token", &expression),
                );
            },
        };
        match self.block_map.get(token.value) {
            Some(factory) => {
                let name = String::from_str(token.value);
                let opened = factory.open(&*self, token, &expression, rust)?;
                let depth = self.open_stack.len();
                self.open_stack.push(Scope { opened, depth, name });
                proof {
                    assert(final(self)@.stack =~= old(self)@.stack.push(
                        ScopeModel {
                            opened: final(self)@.stack.last().opened,
                            depth: depth as int,
                            name: final(self)@.stack.last().name,
                        },
                    ));
                }
                Ok(())
            },
            None => {
                let mut m = String::new();
                m.append("unsupported helper ");
                m.append(token.value);
                let e = ParseError::new(ErrorKind::UnknownHelper, m.as_str(), &expression);
                Err(e)
            },
        }
    }
}

} // verus!

verus! {

use crate::optimizer::{optimize, spec_optimize};

/// One queued piece of pending output: a literal run, or a value
/// expression with the capability it needs and the conversion suffix it
/// renders through.
enum PendingWrite<'a> {
    Raw(&'a str),
    Expression((Expression<'a>, &'static str, &'static str)),
}

/// The mathematical shadow of one pending piece.
pub ghost enum PendingModel {
    Raw(Seq<char>),
    Expr(ExprModel, Seq<char>, Seq<char>),
}

impl<'a> View for PendingWrite<'a> {
    type V = PendingModel;

    closed spec fn view(&self) -> PendingModel {
        match self {
            PendingWrite::Raw(s) => PendingModel::Raw(s@),
            PendingWrite::Expression(t) => PendingModel::Expr(t.0@, t.1@, t.2@),
        }
    }
}

/// How one character is escaped in a format-string literal: braces are
/// doubled, backslash and quote take a backslash.
pub open spec fn spec_escape_char(c: char) -> Seq<char> {
    if c == '{' {
        seq!['{', '{']
    } else if c == '}' {
        seq!['}', '}']
    } else if c == '\\' {
        seq!['\\', '\\']
    } else if c == '"' {
        seq!['\\', '"']
    } else {
        seq![c]
    }
}

/// Literal text escaped for insertion into a format string.
pub open spec fn spec_escape(s: Seq<char>) -> Seq<char>
    decreases s.len(),
{
    if s.len() == 0 {
        Seq::empty()
    } else {
        spec_escape(s.drop_last()) + spec_escape_char(s.last())
    }
}

/// The format string one run of pending output renders as: escaped
/// literal text, and one placeholder per value.
pub open spec fn spec_pattern(pending: Seq<PendingModel>, i: int) -> Seq<char>
    decreases pending.len() - i,
{
    if i < 0 || i >= pending.len() {
        Seq::empty()
    } else {
        (match pending[i] {
            PendingModel::Raw(r) => spec_escape(r),
            PendingModel::Expr(m, uses, display) => "{}"@,
        }) + spec_pattern(pending, i + 1)
    }
}

/// The argument list of one flushed run: each pending value resolves as
/// an argument, recording the capability it renders through.
pub open spec fn spec_commit_args(
    stack: Seq<ScopeModel>,
    pending: Seq<PendingModel>,
    i: int,
    rust: RustModel,
) -> Result<RustModel, ErrorKind>
    decreases pending.len() - i,
{
    if i < 0 || i >= pending.len() {
        Ok(rust)
    } else {
        match pending[i] {
            PendingModel::Raw(r) => spec_commit_args(stack, pending, i + 1, rust),
            PendingModel::Expr(m, uses, display) => {
                match spec_resolve(
                    stack,
                    ExprModel {
                        kind: ExpressionType::Raw,
                        prefix: ", "@,
                        content: m.content,
                        postfix: display,
                        raw: m.raw,
                    },
                    rust,
                ) {
                    Err(k) => Err(k),
                    Ok(rust1) => spec_commit_args(
                        stack,
                        pending,
                        i + 1,
                        RustModel { using: spec_insert_use(rust1.using, uses), code: rust1.code },
                    ),
                }
            },
        }
    }
}

/// Flushing pending output: nothing when none is queued, else one write
/// call whose format string batches the whole run and whose arguments
/// follow in order.
pub open spec fn spec_commit(
    stack: Seq<ScopeModel>,
    opts: OptionsModel,
    pending: Seq<PendingModel>,
    rust: RustModel,
) -> Result<RustModel, ErrorKind> {
    if pending.len() == 0 {
        Ok(rust)
    } else {
        let rust1 = RustModel {
            using: rust.using,
            code: rust.code + "write!("@ + opts.write_var_name + ", \""@ + spec_pattern(pending, 0)
                + seq!['"'],
        };
        match spec_commit_args(stack, pending, 0, rust1) {
            Err(k) => Err(k),
            Ok(rust2) => Ok(RustModel { using: rust2.using, code: rust2.code + ")?;"@ }),
        }
    }
}

/// The views of the queued pending pieces.
spec fn pending_views(s: Seq<PendingWrite<'_>>) -> Seq<PendingModel> {
    s.map_values(|p: PendingWrite<'_>| p@)
}

/// One step of the compile walk: the current marker (or the end of the
/// input) against the current scopes, pending output and generated code.
pub open spec fn spec_compile_iter(
    opts: OptionsModel,
    map: Seq<(Seq<char>, BlockFactory)>,
    stack: Seq<ScopeModel>,
    pending: Seq<PendingModel>,
    rust: RustModel,
    cur: Option<ExprModel>,
    rest: Seq<char>,
) -> Result<RustModel, ErrorKind>
    decreases (match cur {
        Some(m) => m.postfix.len() + 1,
        None => 0,
    }), 1int,
{
    match cur {
        None => {
            let pending1 = if rest.len() > 0 {
                pending.push(PendingModel::Raw(rest))
            } else {
                pending
            };
            spec_commit(stack, opts, pending1, rust)
        },
        Some(m) => {
            let pending1 = if m.prefix.len() > 0 {
                pending.push(PendingModel::Raw(m.prefix))
            } else {
                pending
            };
            match m.kind {
                ExpressionType::Raw => spec_compile_go(
                    opts,
                    map,
                    stack,
                    pending1.push(PendingModel::Expr(m, "AsDisplay"@, ".as_display()"@)),
                    rust,
                    m.postfix,
                ),
                ExpressionType::HtmlEscaped => {
                    if m.content == "else"@ {
                        match spec_commit(stack, opts, pending1, rust) {
                            Err(k) => Err(k),
                            Ok(rust1) => match spec_handle_else(stack.last().opened, rust1) {
                                Err(k) => Err(k),
                                Ok(rust2) => spec_compile_go(
                                    opts,
                                    map,
                                    stack,
                                    Seq::empty(),
                                    rust2,
                                    m.postfix,
                                ),
                            },
                        }
                    } else {
                        spec_compile_go(
                            opts,
                            map,
                            stack,
                            pending1.push(
                                PendingModel::Expr(m, "AsDisplayHtml"@, ".as_display_html()"@),
                            ),
                            rust,
                            m.postfix,
                        )
                    }
                },
                ExpressionType::Open => {
                    match spec_commit(stack, opts, pending1, rust) {
                        Err(k) => Err(k),
                        Ok(rust1) => match spec_open(stack, map, m, rust1) {
                            Err(k) => Err(k),
                            Ok(p) => spec_compile_go(
                                opts,
                                map,
                                p.0,
                                Seq::empty(),
                                p.1,
                                m.postfix,
                            ),
                        },
                    }
                },
                ExpressionType::Close => {
                    match spec_commit(stack, opts, pending1, rust) {
                        Err(k) => Err(k),
                        Ok(rust1) => match spec_close_block(stack, m.content, rust1) {
                            Err(k) => Err(k),
                            Ok(p) => spec_compile_go(
                                opts,
                                map,
                                p.0,
                                Seq::empty(),
                                p.1,
                                m.postfix,
                            ),
                        },
                    }
                },
                ExpressionType::Escaped => spec_compile_go(
                    opts,
                    map,
                    stack,
                    pending1.push(PendingModel::Raw(m.content)),
                    rust,
                    m.postfix,
                ),
                ExpressionType::Comment => spec_compile_go(
                    opts,
                    map,
                    stack,
                    pending1,
                    rust,
                    m.postfix,
                ),
            }
        },
    }
}

/// Scanning the next marker of the remaining input and continuing the
/// compile walk on it.
pub open spec fn spec_compile_go(
    opts: OptionsModel,
    map: Seq<(Seq<char>, BlockFactory)>,
    stack: Seq<ScopeModel>,
    pending: Seq<PendingModel>,
    rust: RustModel,
    rest: Seq<char>,
) -> Result<RustModel, ErrorKind>
    decreases rest.len() + 1, 0int,
    via spec_compile_go_decreases
{
    match crate::expression::spec_from(rest) {
        Err(k) => Err(k),
        Ok(next) => spec_compile_iter(opts, map, stack, pending, rust, next, rest),
    }
}

#[via_fn]
proof fn spec_compile_go_decreases(
    opts: OptionsModel,
    map: Seq<(Seq<char>, BlockFactory)>,
    stack: Seq<ScopeModel>,
    pending: Seq<PendingModel>,
    rust: RustModel,
    rest: Seq<char>,
) {
    crate::expression::lemma_from_shrinks(rest);
}

/// The whole compilation of one template under the given options and
/// registry: the compile walk from the root scope, then the write-merge
/// pass over the generated code.
pub open spec fn spec_compile(
    opts: OptionsModel,
    map: Seq<(Seq<char>, BlockFactory)>,
    src: Seq<char>,
) -> Result<RustModel, ErrorKind> {
    let stack0 = seq![
        ScopeModel {
            depth: 0,
            opened: BlockModel::Root { this: opts.root_var_name },
            name: Seq::empty(),
        },
    ];
    let rust0 = RustModel { using: Seq::empty(), code: Seq::empty() };
    match spec_compile_go(opts, map, stack0, Seq::empty(), rust0, src) {
        Err(k) => Err(k),
        Ok(rust) => Ok(
            RustModel {
                using: rust.using,
                code: spec_optimize(rust.code, opts.write_var_name),
            },
        ),
    }
}

/// The template compiler: the options a compilation runs under and the
/// helper registry blocks are resolved against.
pub struct Compiler {
    pub options: Options,
    pub block_map: BlockMap,
}

impl Compiler {
    /// A compiler over the given options and registry.
    pub fn new(options: Options, block_map: BlockMap) -> (r: Self)
        ensures
            r.options@ == options@,
            r.block_map@ == block_map@,
    {
        Compiler { options, block_map }
    }

    /// Escapes literal text for insertion into a format string.
    fn escape(&self, content: &str) -> (r: String)
        ensures
            r@ == spec_escape(content@),
    {
        let n = content.unicode_len();
        let mut out = String::new();
        let mut i: usize = 0;
        while i < n
            invariant
                0 <= i <= n,
                n == content@.len(),
                out@ == spec_escape(content@.subrange(0, i as int)),
            decreases n - i,
        {
            let ghost pre = content@.subrange(0, i as int);
            let c = content.get_char(i);
            if c == '{' {
                out.append("{{");
                proof {
                    reveal_strlit("{{");
                    assert("{{"@ =~= seq!['{', '{']);
                }
            } else if c == '}' {
                out.append("}}");
                proof {
                    reveal_strlit("}}");
                    assert("}}"@ =~= seq!['}', '}']);
                }
            } else if c == '\\' {
                out.append("\\\\");
                proof {
                    reveal_strlit("\\\\");
                    assert("\\\\"@ =~= seq!['\\', '\\']);
                }
            } else if c == '"' {
                out.append("\\\"");
                proof {
                    reveal_strlit("\\\"");
                    assert("\\\""@ =~= seq!['\\', '"']);
                }
            } else {
                push_char(&mut out, c);
            }
            proof {
                let next = content@.subrange(0, i + 1);
                assert(next.drop_last() =~= pre);
                assert(next.last() == content@[i as int]);
                assert(out@ =~= spec_escape(next));
            }
            i = i + 1;
        }
        proof {
            assert(content@.subrange(0, n as int) =~= content@);
        }
        out
    }

    /// Flushes pending output as one batched write call.
    fn commit_pending<'a>(
        &self,
        pending: &mut Vec<PendingWrite<'a>>,
        compile: &Compile<'a>,
        rust: &mut Rust,
    ) -> (r: Result<(), ParseError>)
        requires
            stack_wf(compile@.stack),
        ensures
            match r {
                Ok(()) => spec_commit(
                    compile@.stack,
                    self.options@,
                    pending_views(old(pending)@),
                    old(rust)@,
                ) == Ok::<RustModel, ErrorKind>(final(rust)@) && final(pending)@.len() == 0,
                Err(e) => spec_commit(
                    compile@.stack,
                    self.options@,
                    pending_views(old(pending)@),
                    old(rust)@,
                ) == Err::<RustModel, ErrorKind>(e.kind),
            },
    {
        let ghost pend = pending_views(pending@);
        let n = pending.len();
        if n == 0 {
            pending.clear();
            return Ok(());
        }
        rust.code.append("write!(");
        rust.code.append(self.options.write_var_name.as_str());
        rust.code.append(", \"");
        let ghost base = rust@.code;
        proof {
            assert(pend.len() == n);
        }
        let mut i: usize = 0;
        while i < n
            invariant
                0 <= i <= n,
                n == pending@.len(),
                pend.len() == n,
                pend == pending_views(pending@),
                rust@.using == old(rust)@.using,
                base + spec_pattern(pend, 0) == rust@.code + spec_pattern(pend, i as int),
            decreases n - i,
        {
            match &pending[i] {
                PendingWrite::Raw(raw) => {
                    let e = self.escape(raw);
                    rust.code.append(e.as_str());
                },
                PendingWrite::Expression(t) => {
                    rust.code.append("{}");
                },
            }
            proof {
                assert(pend[i as int] == pending@[i as int]@);
            }
            i = i + 1;
        }
        proof {
            assert(spec_pattern(pend, n as int) =~= Seq::<char>::empty());
            assert(rust@.code =~= base + spec_pattern(pend, 0));
        }
        rust.code.append("\"");
        proof {
            reveal_strlit("\"");
            assert("\""@ =~= seq!['"']);
        }
        let ghost header = rust@;
        proof {
            assert(header.code =~= base + spec_pattern(pend, 0) + seq!['"']);
            assert(header == RustModel {
                using: old(rust)@.using,
                code: old(rust)@.code + "write!("@ + self.options@.write_var_name + ", \""@
                    + spec_pattern(pend, 0) + seq!['"'],
            });
        }
        let mut j: usize = 0;
        while j < n
            invariant
                0 <= j <= n,
                n == pending@.len(),
                pend.len() == n,
                n > 0,
                pend == pending_views(pending@),
                pend == pending_views(old(pending)@),
                stack_wf(compile@.stack),
                header == (RustModel {
                    using: old(rust)@.using,
                    code: old(rust)@.code + "write!("@ + self.options@.write_var_name + ", \""@
                        + spec_pattern(pend, 0) + seq!['"'],
                }),
                spec_commit_args(compile@.stack, pend, 0, header) == spec_commit_args(
                    compile@.stack,
                    pend,
                    j as int,
                    rust@,
                ),
            decreases n - j,
        {
            proof {
                assert(pend[j as int] == pending@[j as int]@);
            }
            match &pending[j] {
                PendingWrite::Raw(_) => {},
                PendingWrite::Expression(t) => {
                    let expr2 = Expression {
                        expression_type: ExpressionType::Raw,
                        prefix: ", ",
                        content: t.0.content,
                        postfix: t.2,
                        raw: t.0.raw,
                    };
                    let res = compile.resolve(&expr2, rust);
                    match res {
                        Ok(()) => {},
                        Err(e) => {
                            proof {
                                assert(spec_commit_args(compile@.stack, pend, 0, header) == Err::<
                                    RustModel,
                                    ErrorKind,
                                >(e.kind));
                                assert(spec_commit(
                                    compile@.stack,
                                    self.options@,
                                    pend,
                                    old(rust)@,
                                ) == Err::<RustModel, ErrorKind>(e.kind));
                            }
                            return Err(e);
                        },
                    }
                    rust.insert_use(t.1);
                },
            }
            j = j + 1;
        }
        rust.code.append(")?;");
        pending.clear();
        proof {
            assert(spec_commit(compile@.stack, self.options@, pend, old(rust)@) == Ok::<
                RustModel,
                ErrorKind,
            >(rust@));
        }
        Ok(())
    }

    /// Compiles one template: scans its markers in order, batching
    /// literal and value output and dispatching control-flow markers to
    /// their blocks, then merges adjacent write calls in the result.
    #[verifier::rlimit(100)]
    #[verifier::spinoff_prover]
    pub fn compile(&self, src: &str) -> (r: Result<Rust, ParseError>)
        ensures
            match r {
                Ok(rust) => spec_compile(self.options@, self.block_map@, src@) == Ok::<
                    RustModel,
                    ErrorKind,
                >(rust@),
                Err(e) => spec_compile(self.options@, self.block_map@, src@) == Err::<
                    RustModel,
                    ErrorKind,
                >(e.kind),
            },
    {
        let root: Option<String> = match &self.options.root_var_name {
            Some(s) => Some(String::from_str(s.as_str())),
            None => None,
        };
        let mut compile = Compile::new(root, &self.block_map);
        let mut rust = Rust::new();
        let mut pending: Vec<PendingWrite<'_>> = Vec::new();
        let ghost stack0 = seq![
            ScopeModel {
                depth: 0,
                opened: BlockModel::Root { this: self.options@.root_var_name },
                name: Seq::empty(),
            },
        ];
        let ghost rust0 = RustModel { using: Seq::empty(), code: Seq::empty() };
        let ghost init = spec_compile_go(
            self.options@,
            self.block_map@,
            stack0,
            Seq::empty(),
            rust0,
            src@,
        );
        let ghost whole = spec_compile(self.options@, self.block_map@, src@);
        proof {
            assert(compile@.stack =~= stack0);
            assert(rust@ == rust0);
            assert(pending_views(pending@) =~= Seq::<PendingModel>::empty());
            assert(whole == (match init {
                Err(k) => Err::<RustModel, ErrorKind>(k),
                Ok(ru) => Ok::<RustModel, ErrorKind>(
                    RustModel {
                        using: ru.using,
                        code: spec_optimize(ru.code, self.options@.write_var_name),
                    },
                ),
            }));
        }
        let mut rest: &str = src;
        let mut expression = Expression::from(src)?;
        loop
            invariant
                stack_wf(compile@.stack),
                compile@.map == self.block_map@,
                whole == spec_compile(self.options@, self.block_map@, src@),
                whole == (match init {
                    Err(k) => Err::<RustModel, ErrorKind>(k),
                    Ok(ru) => Ok::<RustModel, ErrorKind>(
                        RustModel {
                            using: ru.using,
                            code: spec_optimize(ru.code, self.options@.write_var_name),
                        },
                    ),
                }),
                init == spec_compile_iter(
                    self.options@,
                    self.block_map@,
                    compile@.stack,
                    pending_views(pending@),
                    rust@,
                    match expression {
                        Some(e) => Some(e@),
                        None => None,
                    },
                    rest@,
                ),
            ensures
                expression is None,
            decreases (match expression {
                Some(e) => e.postfix@.len() + 1,
                None => 0nat,
            }),
        {
            let expr = match expression {
                Some(e) => e,
                None => {
                    break ;
                },
            };
            let ghost m = expr@;
            let ghost pend_entry = pending_views(pending@);
            rest = expr.postfix;
            if expr.prefix.unicode_len() > 0 {
                pending.push(PendingWrite::Raw(expr.prefix));
                proof {
                    assert(pending_views(pending@) =~= pend_entry.push(
                        PendingModel::Raw(m.prefix),
                    ));
                }
            }
            let ghost pend1 = pending_views(pending@);
            match expr.expression_type {
                ExpressionType::Raw => {
                    pending.push(
                        PendingWrite::Expression((expr, "AsDisplay", ".as_display()")),
                    );
                    proof {
                        assert(pending_views(pending@) =~= pend1.push(
                            PendingModel::Expr(m, "AsDisplay"@, ".as_display()"@),
                        ));
                        assert(init == spec_compile_go(
                            self.options@,
                            self.block_map@,
                            compile@.stack,
                            pending_views(pending@),
                            rust@,
                            m.postfix,
                        ));
                    }
                },
                ExpressionType::HtmlEscaped => {
                    if str_eq(expr.content, "else") {
                        self.commit_pending(&mut pending, &compile, &mut rust)?;
                        compile.handle_else(&expr, &mut rust)?;
                        proof {
                            assert(pending_views(pending@) =~= Seq::<PendingModel>::empty());
                            assert(init == spec_compile_go(
                                self.options@,
                                self.block_map@,
                                compile@.stack,
                                pending_views(pending@),
                                rust@,
                                m.postfix,
                            ));
                        }
                    } else {
                        pending.push(
                            PendingWrite::Expression((expr, "AsDisplayHtml", ".as_display_html()")),
                        );
                        proof {
                            assert(pending_views(pending@) =~= pend1.push(
                                PendingModel::Expr(m, "AsDisplayHtml"@, ".as_display_html()"@),
                            ));
                            assert(init == spec_compile_go(
                                self.options@,
                                self.block_map@,
                                compile@.stack,
                                pending_views(pending@),
                                rust@,
                                m.postfix,
                            ));
                        }
                    }
                },
                ExpressionType::Open => {
                    self.commit_pending(&mut pending, &compile, &mut rust)?;
                    compile.open(expr, &mut rust)?;
                    proof {
                        assert(pending_views(pending@) =~= Seq::<PendingModel>::empty());
                        assert(init == spec_compile_go(
                            self.options@,
                            self.block_map@,
                            compile@.stack,
                            pending_views(pending@),
                            rust@,
                            m.postfix,
                        ));
                    }
                },
                ExpressionType::Close => {
                    self.commit_pending(&mut pending, &compile, &mut rust)?;
                    compile.close(expr, &mut rust)?;
                    proof {
                        assert(pending_views(pending@) =~= Seq::<PendingModel>::empty());
                        assert(init == spec_compile_go(
                            self.options@,
                            self.block_map@,
                            compile@.stack,
                            pending_views(pending@),
                            rust@,
                            m.postfix,
                        ));
                    }
                },
                ExpressionType::Escaped => {
                    pending.push(PendingWrite::Raw(expr.content));
                    proof {
                        assert(pending_views(pending@) =~= pend1.push(
                            PendingModel::Raw(m.content),
                        ));
                        assert(init == spec_compile_go(
                            self.options@,
                            self.block_map@,
                            compile@.stack,
                            pending_views(pending@),
                            rust@,
                            m.postfix,
                        ));
                    }
                },
                ExpressionType::Comment => {
                    proof {
                        assert(init == spec_compile_go(
                            self.options@,
                            self.block_map@,
                            compile@.stack,
                            pending_views(pending@),
                            rust@,
                            m.postfix,
                        ));
                    }
                },
            }
            proof {
                crate::expression::lemma_from_shrinks(m.postfix);
            }
            let stepped = match expr.next() {
                Ok(o) => o,
                Err(e) => {
                    proof {
                        assert(spec_compile_go(
                            self.options@,
                            self.block_map@,
                            compile@.stack,
                            pending_views(pending@),
                            rust@,
                            m.postfix,
                        ) == Err::<RustModel, ErrorKind>(e.kind));
                    }
                    return Err(e);
                },
            };
            proof {
                assert(init == spec_compile_iter(
                    self.options@,
                    self.block_map@,
                    compile@.stack,
                    pending_views(pending@),
                    rust@,
                    match stepped {
                        Some(e2) => Some(e2@),
                        None => None,
                    },
                    m.postfix,
                ));
            }
            expression = stepped;
        }
        let ghost pend_done = pending_views(pending@);
        if rest.unicode_len() > 0 {
            pending.push(PendingWrite::Raw(rest));
            proof {
                assert(pending_views(pending@) =~= pend_done.push(PendingModel::Raw(rest@)));
            }
        }
        proof {
            assert(init == spec_commit(
                compile@.stack,
                self.options@,
                pending_views(pending@),
                rust@,
            ));
        }
        self.commit_pending(&mut pending, &compile, &mut rust)?;
        let optimized = optimize(rust.code, self.options.write_var_name.as_str());
        let result = Rust { using: rust.using, code: optimized };
        Ok(result)
    }
}

} // verus!
