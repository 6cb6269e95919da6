//! What the capsule attribute macros derive from capsule functions: the names of the
//! capsule types they generate, and what each parameter of the function is handed.
use vstd::prelude::*;

use vstd::string::StrSliceExecFns;
use vstd::string::StringExecFns;

verus! {

/// What `char::to_uppercase` yields for `c`: its Unicode upper case mapping.
pub uninterp spec fn uppercase_of(c: char) -> Seq<char>;

/// The upper case of `c` (by `char::to_uppercase`); it may be several characters.
#[verifier::external_body]
fn char_to_uppercase(c: char) -> (r: Vec<char>)
    ensures
        r@ == uppercase_of(c),
{
    c.to_uppercase().collect()
}

/// The string made of `chars` (by `String::from_iter`).
#[verifier::external_body]
fn string_from_chars(chars: &Vec<char>) -> (s: String)
    ensures
        s@ == chars@,
{
    String::from_iter(chars.iter())
}

/// `s` in PascalCase: the words between underscores, each with its first character in
/// upper case, joined together (`at_word_start` says whether `s` starts a word).
pub open spec fn pascal_case(s: Seq<char>, at_word_start: bool) -> Seq<char>
    decreases s.len(),
{
    if s.len() == 0 {
        Seq::empty()
    } else if s[0] == '_' {
        pascal_case(s.drop_first(), true)
    } else if at_word_start {
        uppercase_of(s[0]) + pascal_case(s.drop_first(), false)
    } else {
        seq![s[0]] + pascal_case(s.drop_first(), false)
    }
}

/// Converts a snake_case name to PascalCase.
pub fn snake_to_pascal(s: &str) -> (r: String)
    ensures
        r@ == pascal_case(s@, true),
{
    let n = s.unicode_len();
    let mut out: Vec<char> = Vec::new();
    let mut at_word_start = true;
    let mut i: usize = 0;
    assert(s@.skip(0) =~= s@);
    assert(out@ + pascal_case(s@, true) =~= pascal_case(s@, true));
    while i < n
        invariant
            n == s@.len(),
            i <= n,
            out@ + pascal_case(s@.skip(i as int), at_word_start) == pascal_case(s@, true),
        decreases n - i,
    {
        let c = s.get_char(i);
        assert(s@.skip(i as int).drop_first() =~= s@.skip(i + 1));
        assert(s@.skip(i as int)[0] == c);
        let ghost before = out@;
        if c == '_' {
            at_word_start = true;
        } else if at_word_start {
            let upper = char_to_uppercase(c);
            let mut j: usize = 0;
            while j < upper.len()
                invariant
                    j <= upper@.len(),
                    out@ == before + upper@.take(j as int),
                decreases upper@.len() - j,
            {
                out.push(upper[j]);
                j = j + 1;
                assert(upper@.take(j as int) =~= upper@.take(j - 1).push(upper@[j - 1]));
            }
            assert(upper@.take(upper@.len() as int) =~= upper@);
            assert(out@ + pascal_case(s@.skip(i + 1), false) =~= before + pascal_case(
                s@.skip(i as int),
                true,
            ));
            at_word_start = false;
        } else {
            out.push(c);
            assert(out@ + pascal_case(s@.skip(i + 1), false) =~= before + pascal_case(
                s@.skip(i as int),
                false,
            ));
        }
        i = i + 1;
    }
    assert(s@.skip(n as int) =~= Seq::<char>::empty());
    assert(out@ =~= pascal_case(s@, true));
    string_from_chars(&out)
}

/// The name of the type that a capsule attribute macro generates for the capsule function
/// `fn_name`: the function's name in PascalCase followed by `name_suffix`.
pub fn capsule_type_name(fn_name: &str, name_suffix: &str) -> (r: String)
    ensures
        r@ == pascal_case(fn_name@, true) + name_suffix@,
{
    let mut name = snake_to_pascal(fn_name);
    name.append(name_suffix);
    name
}


/// The kind of a parameter of a capsule or factory function, as the capsule attribute macros
/// classify it.
#[derive(Clone, Copy, Debug, PartialEq, Eq)]
pub enum FnParam {
    /// `self`: capsule functions must be top-level functions.
    Receiver,
    /// A type path: another capsule, read as a dependency.
    Path,
    /// A reference: the capsule reader.
    Reference,
    /// An `impl` type: the side effect handle.
    ImplTrait,
    /// A tuple of the given arity: the arguments of a factory.
    Tuple(usize),
    /// Any other type.
    Other,
}

/// What a capsule function is handed for one of its parameters.
#[derive(Clone, Copy, Debug, PartialEq, Eq)]
pub enum CapsuleArg {
    Dependency,
    Reader,
    Handle,
}

/// What a capsule function is handed for a parameter of kind `p`.
pub open spec fn capsule_arg_of(p: FnParam) -> CapsuleArg {
    match p {
        FnParam::Reference => CapsuleArg::Reader,
        FnParam::ImplTrait => CapsuleArg::Handle,
        _ => CapsuleArg::Dependency,
    }
}

/// A capsule function may take only other capsules, the capsule reader and the side effect
/// handle.
pub open spec fn capsule_param_ok(p: FnParam) -> bool {
    p is Path || p is Reference || p is ImplTrait
}

/// What the capsule function with the parameters `params` is handed, in order.
pub fn capsule_args(params: &Vec<FnParam>) -> (args: Vec<CapsuleArg>)
    requires
        forall|i: int| 0 <= i < params@.len() ==> capsule_param_ok(#[trigger] params@[i]),
    ensures
        args@.len() == params@.len(),
        forall|i: int| 0 <= i < params@.len() ==> args@[i] == capsule_arg_of(#[trigger] params@[i]),
{
    let mut args: Vec<CapsuleArg> = Vec::new();
    for i in 0..params.len()
        invariant
            args@.len() == i,
            forall|j: int| 0 <= j < i ==> args@[j] == capsule_arg_of(#[trigger] params@[j]),
    {
        let arg = match params[i] {
            FnParam::Reference => CapsuleArg::Reader,
            FnParam::ImplTrait => CapsuleArg::Handle,
            _ => CapsuleArg::Dependency,
        };
        args.push(arg);
    }
    args
}

/// A factory function may take only other capsules and one tuple of factory arguments.
pub open spec fn factory_param_ok(p: FnParam) -> bool {
    p is Path || p is Tuple
}

/// How many parameters among the first `n` of `params` are tuples of factory arguments.
pub open spec fn tuple_count(params: Seq<FnParam>, n: nat) -> nat
    decreases n,
{
    if n == 0 {
        0
    } else {
        tuple_count(params, (n - 1) as nat) + if params[n - 1] is Tuple {
            1nat
        } else {
            0nat
        }
    }
}

/// The arity of the factory arguments of the factory function with the parameters
/// `params`: that of its tuple parameter, or `None` when it takes no factory arguments.
pub fn factory_arity(params: &Vec<FnParam>) -> (r: Option<usize>)
    requires
        forall|i: int| 0 <= i < params@.len() ==> factory_param_ok(#[trigger] params@[i]),
        tuple_count(params@, params@.len()) <= 1,
    ensures
        r is None <==> tuple_count(params@, params@.len()) == 0,
        forall|i: int| 0 <= i < params@.len() && #[trigger] params@[i] is Tuple ==> r == Some(params@[i]->0),
{
    let mut r: Option<usize> = None;
    for i in 0..params.len()
        invariant
            forall|j: int| 0 <= j < params@.len() ==> factory_param_ok(#[trigger] params@[j]),
            tuple_count(params@, params@.len()) <= 1,
            r is None <==> tuple_count(params@, i as nat) == 0,
            forall|j: int| 0 <= j < i && #[trigger] params@[j] is Tuple ==> r == Some(params@[j]->0),
    {
        proof {
            lemma_tuple_count_grows(params@, (i + 1) as nat, params@.len());
        }
        if let FnParam::Tuple(arity) = params[i] {
            proof {
                if r is Some {
                    let j = choose|j: int| 0 <= j < i && params@[j] is Tuple;
                    lemma_tuple_count_at(params@, j, i as int);
                }
            }
            r = Some(arity);
        }
    }
    r
}

/// Counting tuples over a longer prefix counts no fewer.
proof fn lemma_tuple_count_grows(params: Seq<FnParam>, m: nat, n: nat)
    requires
        m <= n,
    ensures
        tuple_count(params, m) <= tuple_count(params, n),
    decreases n - m,
{
    if m < n {
        lemma_tuple_count_grows(params, m, (n - 1) as nat);
    }
}

/// Two tuples, at `j` and `k`, make a count of at least two past `k`.
proof fn lemma_tuple_count_at(params: Seq<FnParam>, j: int, k: int)
    requires
        0 <= j < k < params.len(),
        params[j] is Tuple,
        params[k] is Tuple,
    ensures
        tuple_count(params, (k + 1) as nat) >= 2,
{
    lemma_tuple_count_grows(params, (j + 1) as nat, k as nat);
}

/// How many capsules the factory function with the parameters `params` reads.
pub fn dependency_count(params: &Vec<FnParam>) -> (n: usize)
    ensures
        n == params@.filter(|p: FnParam| p is Path).len(),
{
    let mut n: usize = 0;
    for i in 0..params.len()
        invariant
            n == params@.take(i as int).filter(|p: FnParam| p is Path).len(),
            n <= i,
    {
        proof {
            assert(params@.take(i + 1).drop_last() =~= params@.take(i as int));
            params@.take(i as int).lemma_filter_push(params@[i as int], |p: FnParam| p is Path);
            assert(params@.take(i as int).push(params@[i as int]) =~= params@.take(i + 1));
        }
        if let FnParam::Path = params[i] {
            n = n + 1;
        }
    }
    assert(params@.take(params@.len() as int) =~= params@);
    n
}

} // verus!
