//! Properties of the compiler stated and proved in their own right:
//! determinism of compilation, the exact success condition of
//! parent-scope traversal, the counter-allocation rule of the looping
//! helper, and preservation of text the write-merge pass cannot merge.
use vstd::prelude::*;

verus! {

use crate::block::{spec_cfi, spec_each_open, BlockFactory, BlockModel, ScopeModel};
use crate::compiler::{spec_compile, spec_find_scope, OptionsModel, RustModel};
use crate::error::ErrorKind;
use crate::expression_tokenizer::TokenModel;
use crate::optimizer::{spec_opt_loop, spec_optimize, spec_unmergeable, spec_write_first, spec_open_str, WriteModel};
use crate::strutil::{lemma_find_props, spec_find, spec_starts_with};

/// Compiling one template under one set of options and one registry
/// admits a single outcome: two results of the same compilation are
/// byte-identical, generated code and capability set alike.
pub proof fn lemma_compile_deterministic(
    opts: OptionsModel,
    map: Seq<(Seq<char>, BlockFactory)>,
    src: Seq<char>,
    r1: RustModel,
    r2: RustModel,
)
    requires
        spec_compile(opts, map, src) == Ok::<RustModel, ErrorKind>(r1),
        spec_compile(opts, map, src) == Ok::<RustModel, ErrorKind>(r2),
    ensures
        r1 == r2,
        r1.code == r2.code,
        r1.using == r2.using,
{
}

/// A run of parent-traversal markers.
pub open spec fn spec_parents(n: nat) -> Seq<char>
    decreases n,
{
    if n == 0 {
        Seq::empty()
    } else {
        seq!['.', '.', '/'] + spec_parents((n - 1) as nat)
    }
}

/// Resolving a path with `n` leading parent-traversal markers from a
/// scope at depth `idx` succeeds exactly when `n` is at most that
/// depth; it lands `n` scopes up with the markers stripped, and one
/// marker too many is the unresolvable-reference failure.
pub proof fn lemma_parent_traversal(
    stack: Seq<ScopeModel>,
    rest: Seq<char>,
    n: nat,
    idx: int,
)
    requires
        !spec_starts_with(rest, seq!['.', '.', '/']),
        0 <= idx,
    ensures
        n <= idx ==> spec_find_scope(stack, spec_parents(n) + rest, idx) == Ok::<
            (Seq<char>, int),
            ErrorKind,
        >((rest, idx - n)),
        n > idx ==> spec_find_scope(stack, spec_parents(n) + rest, idx) == Err::<
            (Seq<char>, int),
            ErrorKind,
        >(ErrorKind::UnresolvableScopeReference),
    decreases n,
{
    let var = spec_parents(n) + rest;
    if n == 0 {
        assert(var =~= rest);
    } else {
        assert(spec_parents(n)[0] == '.');
        assert(spec_parents(n)[1] == '.');
        assert(spec_parents(n)[2] == '/');
        assert(var.subrange(0, 3) =~= seq!['.', '.', '/']);
        assert(spec_starts_with(var, seq!['.', '.', '/']));
        if idx == 0 {
        } else {
            assert(var.subrange(3, var.len() as int) =~= spec_parents((n - 1) as nat) + rest);
            lemma_parent_traversal(stack, rest, (n - 1) as nat, idx - 1);
        }
    }
}

/// The looping helper allocates its index counter exactly when the
/// static pre-scan of the block body finds a counter reference at the
/// helper's own nesting level, and never otherwise.
pub proof fn lemma_each_counter_allocation(
    by_ref: bool,
    stack: Seq<ScopeModel>,
    token: TokenModel,
    postfix: Seq<char>,
    rust: RustModel,
    block: BlockModel,
    rust2: RustModel,
)
    requires
        spec_each_open(by_ref, stack, token, postfix, rust) == Ok::<
            (BlockModel, RustModel),
            ErrorKind,
        >((block, rust2)),
    ensures
        block matches BlockModel::Each { indexer, .. } && (indexer is Some <==> spec_cfi(
            postfix,
            1,
        ) == Ok::<bool, ErrorKind>(true)),
{
}

/// Text in which the write-merge pass finds at most one write call
/// passes through it unchanged. In particular the pass is idempotent on
/// such text: applying it twice is the same as applying it once.
pub proof fn lemma_optimize_sparse_identity(src: Seq<char>, write_var_name: Seq<char>)
    requires
        match spec_write_first(src, spec_open_str(write_var_name)) {
            None => true,
            Some(w) => spec_write_first(w.postfix, spec_open_str(write_var_name)) is None,
        },
    ensures
        spec_optimize(src, write_var_name) == src,
        spec_optimize(spec_optimize(src, write_var_name), write_var_name) == spec_optimize(
            src,
            write_var_name,
        ),
{
    let open = spec_open_str(write_var_name);
    reveal_strlit("write!(");
    reveal_strlit(", \"");
    reveal_strlit(")?;");
    assert(open.len() >= 1);
    match spec_write_first(src, open) {
        None => {},
        Some(w) => {
            crate::optimizer::lemma_write_first_reassemble(src, open);
            assert(spec_optimize(src, write_var_name) =~= src);
        },
    }
}

/// The merge walk over a chain the pass cannot act on — every call
/// carries a format string and every later call stands behind
/// intervening code — reassembles exactly the text it reads, around
/// whatever run it entered with.
proof fn lemma_opt_loop_separated(
    open: Seq<char>,
    w: WriteModel,
    out: Seq<char>,
    f: Seq<char>,
    a: Seq<char>,
)
    requires
        open.len() >= 1,
        spec_unmergeable(open, w),
    ensures
        spec_opt_loop(open, w, out, f, a) == (if w.prefix.len() == 0 {
            out + open + (f + w.pattern) + seq!['"'] + (a + w.args) + ")?;"@ + w.postfix
        } else {
            crate::optimizer::spec_close_out(open, f, a, out) + w.prefix + open + w.pattern
                + seq!['"'] + w.args + ")?;"@ + w.postfix
        }),
    decreases w.postfix.len(),
{
    crate::optimizer::lemma_write_first_shrinks(w.postfix, open);
    crate::optimizer::lemma_write_first_reassemble(w.postfix, open);
    match spec_write_first(w.postfix, open) {
        None => {
            if w.prefix.len() == 0 {
                assert(spec_opt_loop(open, w, out, f, a) =~= out + open + (f + w.pattern)
                    + seq!['"'] + (a + w.args) + ")?;"@ + w.postfix);
            } else {
                assert(spec_opt_loop(open, w, out, f, a) =~= crate::optimizer::spec_close_out(
                    open,
                    f,
                    a,
                    out,
                ) + w.prefix + open + w.pattern + seq!['"'] + w.args + ")?;"@ + w.postfix);
            }
        },
        Some(next) => {
            if w.prefix.len() == 0 {
                lemma_opt_loop_separated(open, next, out, f + w.pattern, a + w.args);
                assert((f + w.pattern).len() > 0);
                assert(spec_opt_loop(open, w, out, f, a) =~= out + open + (f + w.pattern)
                    + seq!['"'] + (a + w.args) + ")?;"@ + w.postfix);
            } else {
                let out1 = crate::optimizer::spec_close_out(open, f, a, out) + w.prefix;
                lemma_opt_loop_separated(open, next, out1, w.pattern, w.args);
                assert(w.pattern.len() > 0);
                assert(spec_opt_loop(open, w, out, f, a) =~= crate::optimizer::spec_close_out(
                    open,
                    f,
                    a,
                    out,
                ) + w.prefix + open + w.pattern + seq!['"'] + w.args + ")?;"@ + w.postfix);
            }
        },
    }
}

/// Text in which the write-merge pass can merge nothing — every write
/// call carries a format string, and every call after the first stands
/// behind intervening code — passes through the pass unchanged, so the
/// pass is idempotent on all such text.
pub proof fn lemma_optimize_separated_identity(src: Seq<char>, write_var_name: Seq<char>)
    requires
        match spec_write_first(src, spec_open_str(write_var_name)) {
            None => true,
            Some(w) => spec_unmergeable(spec_open_str(write_var_name), w),
        },
    ensures
        spec_optimize(src, write_var_name) == src,
        spec_optimize(spec_optimize(src, write_var_name), write_var_name) == spec_optimize(
            src,
            write_var_name,
        ),
{
    let open = spec_open_str(write_var_name);
    reveal_strlit("write!(");
    reveal_strlit(", \"");
    reveal_strlit(")?;");
    assert(open.len() >= 1) by {
        assert("write!("@.len() == 7);
    }
    match spec_write_first(src, open) {
        None => {},
        Some(w) => {
            lemma_opt_loop_separated(open, w, Seq::empty(), Seq::empty(), Seq::empty());
            crate::optimizer::lemma_write_first_reassemble(src, open);
            if w.prefix.len() == 0 {
                assert(spec_optimize(src, write_var_name) =~= src);
            } else {
                assert(crate::optimizer::spec_close_out(
                    open,
                    Seq::empty(),
                    Seq::empty(),
                    Seq::empty(),
                ) =~= Seq::<char>::empty());
                assert(spec_optimize(src, write_var_name) =~= src);
            }
        },
    }
}

} // verus!

verus! {

use crate::compiler::{
    spec_commit, spec_commit_args, spec_compile_go, spec_compile_iter, spec_escape,
    spec_escape_char, spec_pattern, PendingModel,
};
use crate::expression::spec_from;
use crate::optimizer::spec_fcq;

/// An option shifted by an offset, as the quote scan reports positions
/// inside a longer text.
pub open spec fn spec_shift(r: Option<int>, d: int) -> Option<int> {
    match r {
        Some(k) => Some(k + d),
        None => None,
    }
}

/// The quote scan only reads the text from its current position on.
proof fn lemma_fcq_offset(a: Seq<char>, b: Seq<char>, j: int, e: bool)
    requires
        0 <= j,
    ensures
        spec_fcq(a + b, a.len() + j, e) == spec_shift(spec_fcq(b, j, e), a.len() as int),
    decreases b.len() - j,
{
    let s = a + b;
    if j >= b.len() {
    } else {
        assert(s[a.len() + j] == b[j]);
        let c = b[j];
        if c == '\\' {
            lemma_fcq_offset(a, b, j + 1, !e);
        } else if c == '"' && !e {
        } else {
            lemma_fcq_offset(a, b, j + 1, false);
        }
    }
}

/// Scanning across one escaped character neither ends the format string
/// nor leaves an escape pending.
proof fn lemma_fcq_unit(c: char, rest: Seq<char>)
    ensures
        spec_fcq(spec_escape_char(c) + rest, 0, false) == spec_shift(
            spec_fcq(rest, 0, false),
            spec_escape_char(c).len() as int,
        ),
{
    let u = spec_escape_char(c);
    let s = u + rest;
    if c == '{' || c == '}' {
        assert(s[0] == c && s[1] == c);
        assert(spec_fcq(s, 0, false) == spec_fcq(s, 2, false));
        lemma_fcq_offset(u, rest, 0, false);
    } else if c == '\\' {
        assert(s[0] == '\\' && s[1] == '\\');
        assert(spec_fcq(s, 0, false) == spec_fcq(s, 1, true));
        assert(spec_fcq(s, 1, true) == spec_fcq(s, 2, false));
        lemma_fcq_offset(u, rest, 0, false);
    } else if c == '"' {
        assert(s[0] == '\\' && s[1] == '"');
        assert(spec_fcq(s, 0, false) == spec_fcq(s, 1, true));
        assert(spec_fcq(s, 1, true) == spec_fcq(s, 2, false));
        lemma_fcq_offset(u, rest, 0, false);
    } else {
        assert(s[0] == c);
        assert(spec_fcq(s, 0, false) == spec_fcq(s, 1, false));
        lemma_fcq_offset(u, rest, 0, false);
    }
}

/// The quote scan never stops inside escaped literal text: it passes
/// over the whole escaped run and resumes cleanly after it.
proof fn lemma_fcq_escape(src: Seq<char>, rest: Seq<char>)
    ensures
        spec_fcq(spec_escape(src) + rest, 0, false) == spec_shift(
            spec_fcq(rest, 0, false),
            spec_escape(src).len() as int,
        ),
    decreases src.len(),
{
    if src.len() == 0 {
        assert(spec_escape(src) + rest =~= rest);
    } else {
        let dl = src.drop_last();
        let unit = spec_escape_char(src.last());
        let rest2 = unit + rest;
        assert(spec_escape(src) + rest =~= spec_escape(dl) + rest2);
        lemma_fcq_escape(dl, rest2);
        lemma_fcq_unit(src.last(), rest);
        assert(spec_escape(src).len() == spec_escape(dl).len() + unit.len());
    }
}

/// A literal-only template — one in which no marker ever opens —
/// compiles to exactly one write call: its format string is the literal
/// text escaped verbatim, it takes no arguments, it needs no
/// capability, and the write-merge pass leaves it untouched.
#[verifier::rlimit(100)]
pub proof fn lemma_literal_only_template(
    opts: OptionsModel,
    map: Seq<(Seq<char>, BlockFactory)>,
    src: Seq<char>,
)
    requires
        spec_find(src, "{{"@) is None,
        src.len() > 0,
    ensures
        spec_compile(opts, map, src) == Ok::<RustModel, ErrorKind>(
            RustModel {
                using: Seq::empty(),
                code: spec_open_str(opts.write_var_name) + spec_escape(src) + seq!['"'] + ")?;"@,
            },
        ),
{
    reveal_strlit("write!(");
    reveal_strlit(", \"");
    reveal_strlit(")?;");
    let stack0 = seq![
        ScopeModel {
            depth: 0,
            opened: crate::block::BlockModel::Root { this: opts.root_var_name },
            name: Seq::empty(),
        },
    ];
    let rust0 = RustModel { using: Seq::empty(), code: Seq::empty() };
    let open = spec_open_str(opts.write_var_name);
    let pend = Seq::<PendingModel>::empty().push(PendingModel::Raw(src));
    assert(spec_from(src) == Ok::<Option<crate::expression::ExprModel>, ErrorKind>(None));
    assert(spec_compile_go(opts, map, stack0, Seq::empty(), rust0, src) == spec_compile_iter(
        opts,
        map,
        stack0,
        Seq::empty(),
        rust0,
        None,
        src,
    ));
    assert(pend[0] == PendingModel::Raw(src));
    assert(spec_pattern(pend, 1) =~= Seq::<char>::empty());
    assert(spec_pattern(pend, 0) =~= spec_escape(src));
    let code0 = rust0.code + "write!("@ + opts.write_var_name + ", \""@ + spec_pattern(pend, 0)
        + seq!['"'];
    let rust1 = RustModel { using: rust0.using, code: code0 };
    assert(spec_commit_args(stack0, pend, 1, rust1) == Ok::<RustModel, ErrorKind>(rust1));
    assert(spec_commit_args(stack0, pend, 0, rust1) == Ok::<RustModel, ErrorKind>(rust1));
    assert(spec_commit(stack0, opts, pend, rust0) == Ok::<RustModel, ErrorKind>(
        RustModel { using: rust1.using, code: rust1.code + ")?;"@ },
    ));
    let full = rust1.code + ")?;"@;
    assert(full =~= open + spec_escape(src) + seq!['"'] + ")?;"@);

    // The write-merge pass parses the single call back and leaves it
    // unchanged.
    let e = spec_escape(src);
    assert(open.len() >= 7) by {
        reveal_strlit("write!(");
        assert("write!("@.len() == 7);
    }
    assert(full.subrange(0, open.len() as int) =~= open);
    assert(spec_find(full, open) == Some(0int)) by {
        assert(0 + open.len() <= full.len());
    }
    lemma_find_props(full, open);
    let post1 = full.subrange(open.len() as int, full.len() as int);
    assert(post1 =~= e + (seq!['"'] + ")?;"@));
    let tail0 = seq!['"'] + ")?;"@;
    assert(tail0[0] == '"');
    assert(spec_fcq(tail0, 0, false) == Some(0int));
    lemma_fcq_escape(src, tail0);
    assert(spec_fcq(post1, 0, false) == Some(e.len() as int));
    let post2 = post1.subrange(e.len() + 1int, post1.len() as int);
    assert(post2 =~= ")?;"@);
    assert(post2.subrange(0, 3) =~= ")?;"@);
    assert(spec_find(post2, ")?;"@) == Some(0int)) by {
        reveal_strlit(")?;");
        assert(")?;"@.len() == 3);
    }
    let w = crate::optimizer::spec_write_first(full, open).unwrap();
    assert(w.postfix =~= Seq::<char>::empty());
    assert(crate::optimizer::spec_write_first(w.postfix, open) is None) by {
        assert(spec_find(w.postfix, open) is None);
    }
    lemma_optimize_sparse_identity(full, opts.write_var_name);
    assert(spec_compile(opts, map, src) == Ok::<RustModel, ErrorKind>(
        RustModel { using: rust0.using, code: spec_optimize(full, opts.write_var_name) },
    ));
    assert(RustModel { using: rust0.using, code: full } == RustModel {
        using: Seq::empty(),
        code: open + spec_escape(src) + seq!['"'] + ")?;"@,
    });
}

} // verus!
