use vstd::prelude::*;

verus! {

/// Bytes of a machine word on the user stack (the target is 64-bit).
pub const WORD: usize = 8;

/// `x` rounded down to a multiple of 16.
pub open spec fn align_down16(x: int) -> int {
    x - x % 16
}

/// Where argument `i` lands: the arguments are pushed from the last one down to the
/// first below `end`, each at the 16-byte boundary at or below the room it needs.
/// For `i` past the last argument this is `end`.
pub open spec fn arg_addr(end: int, args: Seq<Seq<u8>>, i: int) -> int
    decreases args.len() - i,
{
    if i >= args.len() || i < 0 {
        end
    } else {
        align_down16(arg_addr(end, args, i + 1) - args[i].len())
    }
}

/// Zero words that round the `argv` array of `n` arguments (and its terminating null)
/// up to a multiple of four words.
pub open spec fn argv_padding(n: nat) -> nat {
    ((4 - (n + 1) % 4) % 4) as nat
}

/// Address of the `argv` array once the arguments are pushed below `end`.
pub open spec fn argv_addr(end: int, args: Seq<Seq<u8>>) -> int {
    arg_addr(end, args, 0) - WORD * (argv_padding(args.len()) + args.len() + 1)
}

/// The words from the final stack pointer up to the strings: `argc`, `argv`, two zero
/// words, the addresses of the arguments in order, a null, then the padding.
pub open spec fn exec_words(end: int, args: Seq<Seq<u8>>) -> Seq<usize> {
    let n = args.len();
    Seq::new(4 + n + 1 + argv_padding(n), |k: int|
        if k == 0 {
            n as usize
        } else if k == 1 {
            argv_addr(end, args) as usize
        } else if 4 <= k < 4 + n {
            arg_addr(end, args, k - 4) as usize
        } else {
            0usize
        })
}

/// The arguments and the words below them fit between address 0 and `end`: no push
/// goes below 0.
pub open spec fn exec_stack_fits(end: int, args: Seq<Seq<u8>>) -> bool {
    &&& forall|i: int| 0 <= i < args.len() ==> #[trigger] arg_addr(end, args, i + 1) >= args[i].len()
    &&& arg_addr(end, args, 0) >= WORD * (argv_padding(args.len()) + args.len() + 5)
}

/// The initial user stack of a program: what to write and where the stack starts.
pub struct ExecStack {
    /// The stack pointer the program starts with.
    pub sp: usize,
    /// Number of arguments.
    pub argc: usize,
    /// Address of the `argv` array.
    pub argv: usize,
    /// Where each argument's bytes go, in argument order.
    pub arg_addrs: Vec<usize>,
    /// The words to write from `sp` upwards.
    pub words: Vec<usize>,
}

/// Lays out the initial user stack of a program below `end` for the arguments
/// `args` (each with its terminating null byte): the arguments are pushed from the last
/// down to the first, each at a 16-byte boundary; below them the `argv` array (the
/// arguments' addresses in order, a null, zero words up to a multiple of four words),
/// and below it two zero words, the address of `argv` and `argc`, where the stack
/// pointer starts.
pub fn exec_stack(end: usize, args: &Vec<Vec<u8>>) -> (r: ExecStack)
    requires
        exec_stack_fits(end as int, args.deep_view()),
    ensures
        r.argc == args.len(),
        r.arg_addrs@.len() == args.len(),
        forall|i: int| 0 <= i < args.len() ==> #[trigger] r.arg_addrs@[i] == arg_addr(end as int, args.deep_view(), i),
        r.argv == argv_addr(end as int, args.deep_view()),
        r.sp == r.argv - 4 * WORD,
        r.words@ == exec_words(end as int, args.deep_view()),
        r.sp + WORD * r.words@.len() == arg_addr(end as int, args.deep_view(), 0),
        forall|i: int| 0 <= i < args.len() ==> #[trigger] arg_addr(end as int, args.deep_view(), i) + args@[i]@.len()
            <= arg_addr(end as int, args.deep_view(), i + 1),
        end % 16 == 0 ==> r.sp % 16 == 0 && r.argv % 16 == 0,
{
    proof {
        if end % 16 == 0 {
            lemma_exec_stack_aligned(end as int, args.deep_view());
        }
    }
    let ghost a = args.deep_view();
    let n = args.len();
    let mut addrs: Vec<usize> = Vec::new();
    let mut k: usize = 0;
    while k < n
        invariant
            k <= n,
            addrs@.len() == k,
        decreases n - k,
    {
        addrs.push(0);
        k = k + 1;
    }
    let mut sp: usize = end;
    let mut i: usize = n;
    while i > 0
        invariant
            i <= n,
            n == args.len(),
            a == args.deep_view(),
            addrs@.len() == n,
            sp == arg_addr(end as int, a, i as int),
            exec_stack_fits(end as int, a),
            forall|j: int| i <= j < n ==> #[trigger] addrs@[j] == arg_addr(end as int, a, j),
        decreases i,
    {
        i = i - 1;
        proof {
            assert(a[i as int] == args@[i as int].deep_view());
            assert(a[i as int].len() == args@[i as int]@.len());
            assert(arg_addr(end as int, a, i + 1) >= a[i as int].len());
        }
        let below = sp - args[i].len();
        sp = below - below % 16;
        addrs.set(i, sp);
    }
    let pad = (4 - (n + 1) % 4) % 4;
    let argv = sp - WORD * (pad + n + 1);
    let stack_pointer = argv - 4 * WORD;
    let mut words: Vec<usize> = Vec::new();
    words.push(n);
    words.push(argv);
    words.push(0);
    words.push(0);
    let mut j: usize = 0;
    while j < n
        invariant
            j <= n,
            n == args.len(),
            a == args.deep_view(),
            addrs@.len() == n,
            words@.len() == 4 + j,
            forall|m: int| 0 <= m < n ==> #[trigger] addrs@[m] == arg_addr(end as int, a, m),
            forall|m: int| 0 <= m < 4 + j ==> #[trigger] words@[m] == exec_words(end as int, a)[m],
            argv == argv_addr(end as int, a),
        decreases n - j,
    {
        words.push(addrs[j]);
        j = j + 1;
    }
    let mut z: usize = 0;
    while z < pad + 1
        invariant
            z <= pad + 1,
            n == args.len(),
            a == args.deep_view(),
            pad == argv_padding(n as nat),
            words@.len() == 4 + n + z,
            forall|m: int| 0 <= m < 4 + n + z ==> #[trigger] words@[m] == exec_words(end as int, a)[m],
        decreases pad + 1 - z,
    {
        words.push(0);
        z = z + 1;
    }
    assert(words@ =~= exec_words(end as int, a));
    proof {
        lemma_args_apart(end as int, args);
    }
    ExecStack { sp: stack_pointer, argc: n, argv, arg_addrs: addrs, words }
}

/// Each argument ends at or below where the next one starts.
proof fn lemma_args_apart(end: int, args: &Vec<Vec<u8>>)
    ensures
        forall|i: int| 0 <= i < args.len() ==> #[trigger] arg_addr(end, args.deep_view(), i) + args@[i]@.len()
            <= arg_addr(end, args.deep_view(), i + 1),
{
    let a = args.deep_view();
    assert forall|i: int| 0 <= i < args.len() implies #[trigger] arg_addr(end, a, i) + args@[i]@.len()
        <= arg_addr(end, a, i + 1) by {
        assert(a[i] == args@[i].deep_view());
        assert(a[i].len() == args@[i]@.len());
    }
}

/// Below an aligned top the stack pointer and `argv` are 16-byte aligned.
proof fn lemma_exec_stack_aligned(end: int, args: Seq<Seq<u8>>)
    requires
        end % 16 == 0,
    ensures
        argv_addr(end, args) % 16 == 0,
        (argv_addr(end, args) - 4 * WORD) % 16 == 0,
{
    let n = args.len();
    let pad = argv_padding(n);
    assert((pad + n + 1) % 4 == 0);
    assert(arg_addr(end, args, 0) % 16 == 0);
    let k = (pad + n + 1) / 4;
    assert(WORD * (pad + n + 1) == 32 * k);
}

} // verus!
