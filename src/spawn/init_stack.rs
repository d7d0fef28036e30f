//! The initial stack of a user process: argc, the argv and envp pointer
//! arrays, the auxiliary vector, and the pool of strings they point into.
use super::init_vm::le_byte;
use crate::errno::{Errno, Error};
use crate::prelude::{align_down, spec_align_down};
use vstd::utf8::encode_utf8;
use vstd::prelude::*;

verus! {

/// The keys of the auxiliary vector.
#[allow(non_camel_case_types)]
#[derive(Clone, Copy, Debug, PartialEq, Eq, Structural)]
pub enum AuxKey {
    AT_NULL,
    AT_IGNORE,
    AT_EXECFD,
    AT_PHDR,
    AT_PHENT,
    AT_PHNUM,
    AT_PAGESZ,
    AT_BASE,
    AT_FLAGS,
    AT_ENTRY,
    AT_NOTELF,
    AT_UID,
    AT_EUID,
    AT_GID,
    AT_EGID,
    AT_PLATFORM,
    AT_HWCAP,
    AT_CLKTCK,
    AT_SECURE,
    AT_BASE_PLATFORM,
    AT_RANDOM,
    AT_EXECFN,
}

/// The number that stands for `k` in the vector.
pub open spec fn spec_key_num(k: AuxKey) -> u64 {
    match k {
        AuxKey::AT_NULL => 0,
        AuxKey::AT_IGNORE => 1,
        AuxKey::AT_EXECFD => 2,
        AuxKey::AT_PHDR => 3,
        AuxKey::AT_PHENT => 4,
        AuxKey::AT_PHNUM => 5,
        AuxKey::AT_PAGESZ => 6,
        AuxKey::AT_BASE => 7,
        AuxKey::AT_FLAGS => 8,
        AuxKey::AT_ENTRY => 9,
        AuxKey::AT_NOTELF => 10,
        AuxKey::AT_UID => 11,
        AuxKey::AT_EUID => 12,
        AuxKey::AT_GID => 13,
        AuxKey::AT_EGID => 14,
        AuxKey::AT_PLATFORM => 15,
        AuxKey::AT_HWCAP => 16,
        AuxKey::AT_CLKTCK => 17,
        AuxKey::AT_SECURE => 23,
        AuxKey::AT_BASE_PLATFORM => 24,
        AuxKey::AT_RANDOM => 25,
        AuxKey::AT_EXECFN => 31,
    }
}

impl AuxKey {
    pub fn to_num(&self) -> (r: u64)
        ensures
            r == spec_key_num(*self),
    {
        match self {
            AuxKey::AT_NULL => 0,
            AuxKey::AT_IGNORE => 1,
            AuxKey::AT_EXECFD => 2,
            AuxKey::AT_PHDR => 3,
            AuxKey::AT_PHENT => 4,
            AuxKey::AT_PHNUM => 5,
            AuxKey::AT_PAGESZ => 6,
            AuxKey::AT_BASE => 7,
            AuxKey::AT_FLAGS => 8,
            AuxKey::AT_ENTRY => 9,
            AuxKey::AT_NOTELF => 10,
            AuxKey::AT_UID => 11,
            AuxKey::AT_EUID => 12,
            AuxKey::AT_GID => 13,
            AuxKey::AT_EGID => 14,
            AuxKey::AT_PLATFORM => 15,
            AuxKey::AT_HWCAP => 16,
            AuxKey::AT_CLKTCK => 17,
            AuxKey::AT_SECURE => 23,
            AuxKey::AT_BASE_PLATFORM => 24,
            AuxKey::AT_RANDOM => 25,
            AuxKey::AT_EXECFN => 31,
        }
    }
}

/// The auxiliary vector: each key at most once, in the order first set.
pub struct AuxTable {
    entries: Vec<(AuxKey, u64)>,
}

/// Whether the key of entry `i` of `s` is `k`.
pub open spec fn has_key_at(s: Seq<(AuxKey, u64)>, i: int, k: AuxKey) -> bool {
    0 <= i < s.len() && s[i].0 == k
}

/// The table after setting `k` to `v`: the value replaced where `k` is
/// present, else the pair appended.
pub open spec fn spec_set_val(s: Seq<(AuxKey, u64)>, k: AuxKey, v: u64) -> Seq<(AuxKey, u64)> {
    if exists|i: int| has_key_at(s, i, k) {
        s.update(choose|i: int| has_key_at(s, i, k), (k, v))
    } else {
        s.push((k, v))
    }
}

/// Keys unique, and none of them the terminator or the ignored key.
pub open spec fn aux_wf(s: Seq<(AuxKey, u64)>) -> bool {
    &&& forall|i: int, j: int| 0 <= i < j < s.len() ==> (#[trigger] s[i]).0 != (#[trigger] s[j]).0
    &&& forall|i: int| 0 <= i < s.len() ==> (#[trigger] s[i]).0 != AuxKey::AT_NULL && s[i].0 != AuxKey::AT_IGNORE
}

impl View for AuxTable {
    type V = Seq<(AuxKey, u64)>;

    closed spec fn view(&self) -> Seq<(AuxKey, u64)> {
        self.entries@
    }
}

impl AuxTable {
    pub fn new() -> (r: AuxTable)
        ensures
            r@ == Seq::<(AuxKey, u64)>::empty(),
    {
        AuxTable { entries: Vec::new() }
    }

    /// Sets `key` to `val`; the terminator and the ignored key are refused
    /// with `EINVAL`.
    pub fn set_val(&mut self, key: AuxKey, val: u64) -> (r: Result<(), Error>)
        requires
            aux_wf(old(self)@),
        ensures
            aux_wf(final(self)@),
            key == AuxKey::AT_NULL || key == AuxKey::AT_IGNORE ==> r is Err && r->Err_0.errno
                == Errno::EINVAL && final(self)@ == old(self)@,
            !(key == AuxKey::AT_NULL || key == AuxKey::AT_IGNORE) ==> r is Ok && final(self)@
                == spec_set_val(old(self)@, key, val),
    {
        if key == AuxKey::AT_NULL || key == AuxKey::AT_IGNORE {
            return Err(Error::new(Errno::EINVAL, "illegal auxiliary key"));
        }
        let mut i: usize = 0;
        while i < self.entries.len()
            invariant
                i <= self.entries@.len(),
                self.entries@ == old(self)@,
                aux_wf(old(self)@),
                key != AuxKey::AT_NULL && key != AuxKey::AT_IGNORE,
                forall|j: int| 0 <= j < i ==> !has_key_at(self.entries@, j, key),
            decreases self.entries@.len() - i,
        {
            if self.entries[i].0 == key {
                self.entries.set(i, (key, val));
                proof {
                    let c = choose|j: int| has_key_at(old(self)@, j, key);
                    assert(has_key_at(old(self)@, i as int, key));
                    if c != i {
                        assert(old(self)@[c].0 == old(self)@[i as int].0);
                    }
                }
                assert(aux_wf(self.entries@));
                return Ok(());
            }
            i = i + 1;
        }
        self.entries.push((key, val));
        proof {
            assert(!exists|j: int| has_key_at(old(self)@, j, key));
            assert forall|x: int, y: int| 0 <= x < y < self.entries@.len() implies (
            #[trigger] self.entries@[x]).0 != (#[trigger] self.entries@[y]).0 by {
                if y == old(self)@.len() {
                    assert(!has_key_at(old(self)@, x, key));
                }
            }
        }
        assert(aux_wf(self.entries@));
        Ok(())
    }

    /// The entries, as numbered keys with their values.
    pub fn table(&self) -> (r: Vec<(u64, u64)>)
        ensures
            r@ == aux_pairs(self@),
    {
        let mut r: Vec<(u64, u64)> = Vec::new();
        let mut i: usize = 0;
        while i < self.entries.len()
            invariant
                i <= self.entries@.len(),
                r@ == aux_pairs(self.entries@.subrange(0, i as int)),
            decreases self.entries@.len() - i,
        {
            let (k, v) = self.entries[i];
            r.push((k.to_num(), v));
            i = i + 1;
            assert(r@ =~= aux_pairs(self.entries@.subrange(0, i as int)));
        }
        assert(self.entries@.subrange(0, i as int) =~= self.entries@);
        r
    }
}

/// The entries as numbered keys with their values.
pub open spec fn aux_pairs(s: Seq<(AuxKey, u64)>) -> Seq<(u64, u64)> {
    Seq::new(s.len(), |i: int| (spec_key_num(s[i].0), s[i].1))
}

/// The words of the vector as it lies on the stack: each key and its
/// value, then the terminating pair `(AT_NULL, 0)`.
pub open spec fn aux_words(pairs: Seq<(u64, u64)>) -> Seq<u64>
    decreases pairs.len(),
{
    if pairs.len() == 0 {
        seq![0u64, 0u64]
    } else {
        seq![pairs[0].0, pairs[0].1] + aux_words(pairs.drop_first())
    }
}

/// The pairs read back from stack words, up to and with the terminator;
/// a missing terminator reads as the end of the words.
pub open spec fn decode_aux_words(words: Seq<u64>) -> Seq<(u64, u64)>
    decreases words.len(),
{
    if words.len() < 2 {
        Seq::empty()
    } else if words[0] == 0 {
        seq![(0u64, words[1])]
    } else {
        seq![(words[0], words[1])] + decode_aux_words(words.subrange(2, words.len() as int))
    }
}

/// Writes the auxiliary vector as stack words.
pub fn encode_auxv(pairs: &Vec<(u64, u64)>) -> (r: Vec<u64>)
    ensures
        r@ == aux_words(pairs@),
{
    // built from the end, each step putting one pair in front
    let mut i: usize = pairs.len();
    let mut tail: Vec<u64> = vec![0u64, 0u64];
    while i > 0
        invariant
            i <= pairs@.len(),
            tail@ == aux_words(pairs@.subrange(i as int, pairs@.len() as int)),
        decreases i,
    {
        i = i - 1;
        let (k, v) = pairs[i];
        let mut next: Vec<u64> = Vec::new();
        next.push(k);
        next.push(v);
        let mut j: usize = 0;
        while j < tail.len()
            invariant
                j <= tail@.len(),
                next@ == seq![k, v] + tail@.subrange(0, j as int),
            decreases tail@.len() - j,
        {
            next.push(tail[j]);
            j = j + 1;
            assert(next@ =~= seq![k, v] + tail@.subrange(0, j as int));
        }
        proof {
            let s = pairs@.subrange(i as int, pairs@.len() as int);
            assert(s.drop_first() =~= pairs@.subrange(i + 1, pairs@.len() as int));
            assert(tail@.subrange(0, tail@.len() as int) =~= tail@);
        }
        tail = next;
    }
    assert(pairs@.subrange(0, pairs@.len() as int) =~= pairs@);
    tail
}

/// Reads the auxiliary vector back from stack words.
pub fn decode_auxv(words: &Vec<u64>) -> (r: Vec<(u64, u64)>)
    ensures
        r@ == decode_aux_words(words@),
{
    let mut r: Vec<(u64, u64)> = Vec::new();
    let mut i: usize = 0;
    assert(words@.subrange(0, words@.len() as int) =~= words@);
    assert(r@ + decode_aux_words(words@) =~= decode_aux_words(words@));
    while i + 1 < words.len()
        invariant
            i <= words@.len(),
            i % 2 == 0,
            r@ + decode_aux_words(words@.subrange(i as int, words@.len() as int)) == decode_aux_words(words@),
        decreases words@.len() - i,
    {
        let k = words[i];
        let v = words[i + 1];
        proof {
            let rest = words@.subrange(i as int, words@.len() as int);
            assert(rest.subrange(2, rest.len() as int) =~= words@.subrange(i + 2, words@.len() as int));
        }
        r.push((k, v));
        if k == 0 {
            proof {
                let rest = words@.subrange(i as int, words@.len() as int);
                assert(decode_aux_words(rest) == seq![(0u64, v)]);
            }
            return r;
        }
        i = i + 2;
        proof {
            let rest = words@.subrange(i - 2, words@.len() as int);
            assert(decode_aux_words(rest) == seq![(k, v)] + decode_aux_words(words@.subrange(i as int, words@.len() as int)));
            assert(r@ + decode_aux_words(words@.subrange(i as int, words@.len() as int)) =~= decode_aux_words(words@)) by {
                assert(r@.drop_last() + seq![(k, v)] + decode_aux_words(words@.subrange(i as int, words@.len() as int))
                    =~= r@.drop_last() + (seq![(k, v)] + decode_aux_words(words@.subrange(i as int, words@.len() as int))));
            }
        }
    }
    r
}

/// Decoding the words of an auxiliary vector whose keys are all non-zero
/// gives back its pairs followed by the terminator `(AT_NULL, 0)`.
pub proof fn auxv_round_trip(pairs: Seq<(u64, u64)>)
    requires
        forall|i: int| 0 <= i < pairs.len() ==> (#[trigger] pairs[i]).0 != 0,
    ensures
        decode_aux_words(aux_words(pairs)) == pairs.push((0u64, 0u64)),
    decreases pairs.len(),
{
    if pairs.len() == 0 {
        assert(decode_aux_words(seq![0u64, 0u64]) == seq![(0u64, 0u64)]);
        assert(pairs.push((0u64, 0u64)) =~= seq![(0u64, 0u64)]);
    } else {
        let rest = pairs.drop_first();
        assert forall|i: int| 0 <= i < rest.len() implies (#[trigger] rest[i]).0 != 0 by {
            assert(rest[i] == pairs[i + 1]);
        }
        auxv_round_trip(rest);
        let w = aux_words(pairs);
        assert(w.subrange(2, w.len() as int) =~= aux_words(rest));
        assert(pairs.push((0u64, 0u64)) =~= seq![pairs[0]] + rest.push((0u64, 0u64)));
    }
}

/// The keys of a well-formed table are all non-zero once numbered.
pub proof fn aux_pairs_keys_nonzero(s: Seq<(AuxKey, u64)>)
    requires
        aux_wf(s),
    ensures
        forall|i: int| 0 <= i < aux_pairs(s).len() ==> (#[trigger] aux_pairs(s)[i]).0 != 0,
{
    assert forall|i: int| 0 <= i < aux_pairs(s).len() implies (#[trigger] aux_pairs(s)[i]).0 != 0 by {
        assert(s[i].0 != AuxKey::AT_NULL);
    }
}

/// The little-endian bytes of `v`.
pub open spec fn le_bytes(v: u64) -> Seq<u8> {
    Seq::new(8, |i: int| le_byte(v, i))
}

/// The words laid out as little-endian bytes, lowest address first.
pub open spec fn words_le(ws: Seq<u64>) -> Seq<u8>
    decreases ws.len(),
{
    if ws.len() == 0 {
        Seq::empty()
    } else {
        words_le(ws.drop_last()) + le_bytes(ws.last())
    }
}

/// The strings, each followed by a NUL byte, one after the other.
pub open spec fn cstr_pool(strs: Seq<Seq<u8>>) -> Seq<u8>
    decreases strs.len(),
{
    if strs.len() == 0 {
        Seq::empty()
    } else {
        cstr_pool(strs.drop_last()) + strs.last() + seq![0u8]
    }
}

/// The UTF-8 bytes of each string.
pub open spec fn strings_bytes(v: Seq<String>) -> Seq<Seq<u8>> {
    Seq::new(v.len(), |i: int| encode_utf8(v[i]@))
}

/// The address of each string when the pool starts at `pool_base`.
pub open spec fn string_ptrs(strs: Seq<Seq<u8>>, pool_base: int) -> Seq<u64> {
    Seq::new(strs.len(), |i: int| (pool_base + cstr_pool(strs.take(i)).len()) as u64)
}

/// The words from argc up to the auxiliary vector's terminator.
pub open spec fn stack_words(argc: int, ptrs: Seq<u64>, aux: Seq<(u64, u64)>) -> Seq<u64> {
    seq![argc as u64] + ptrs.take(argc) + seq![0u64] + ptrs.skip(argc) + seq![0u64] + aux_words(aux)
}

/// The initial stack that `do_init` lays out below `stack_top`: its
/// lowest address, 16-byte aligned, and its bytes from there up to
/// `stack_top`; `None` where it needs more than `max_size` bytes.
pub open spec fn spec_stack(
    stack_top: int,
    max_size: int,
    argv: Seq<String>,
    envp: Seq<String>,
    aux: Seq<(u64, u64)>,
) -> Option<(int, Seq<u8>)> {
    let strs = strings_bytes(argv) + strings_bytes(envp);
    let pool = cstr_pool(strs);
    let pool_base = stack_top - pool.len();
    let words = stack_words(argv.len() as int, string_ptrs(strs, pool_base), aux);
    let words_base = pool_base - 8 * words.len();
    if words_base < 0 {
        None
    } else {
        let sp = spec_align_down(words_base, 16);
        if stack_top - sp > max_size {
            None
        } else {
            Some(
                (
                    sp,
                    words_le(words) + Seq::new((words_base - sp) as nat, |i: int| 0u8) + pool,
                ),
            )
        }
    }
}

proof fn lemma_pool_prefix(strs: Seq<Seq<u8>>, k: int)
    requires
        0 <= k < strs.len(),
    ensures
        cstr_pool(strs.take(k)).len() + strs[k].len() + 1 <= cstr_pool(strs).len(),
    decreases strs.len(),
{
    let d = strs.drop_last();
    if k == strs.len() - 1 {
        assert(strs.take(k) =~= d);
    } else {
        assert(d.take(k) =~= strs.take(k));
        lemma_pool_prefix(d, k);
    }
}

proof fn lemma_pool_len(strs: Seq<Seq<u8>>)
    ensures
        cstr_pool(strs).len() >= strs.len(),
    decreases strs.len(),
{
    if strs.len() > 0 {
        lemma_pool_len(strs.drop_last());
    }
}

proof fn lemma_pool_take_all(strs: Seq<Seq<u8>>)
    ensures
        cstr_pool(strs.take(strs.len() as int)) == cstr_pool(strs),
{
    assert(strs.take(strs.len() as int) =~= strs);
}

fn push_word(out: &mut Vec<u8>, w: u64)
    ensures
        final(out)@ == old(out)@ + le_bytes(w),
{
    let mut i: usize = 0;
    while i < 8
        invariant
            i <= 8,
            out@ == old(out)@ + le_bytes(w).take(i as int),
        decreases 8 - i,
    {
        let b: u8 = (#[verifier::truncate] (((w >> ((8 * i) as u64)) & 0xff) as u8));
        out.push(b);
        i = i + 1;
        assert(out@ =~= old(out)@ + le_bytes(w).take(i as int));
    }
    assert(le_bytes(w).take(8) =~= le_bytes(w));
}

/// Lays out the initial stack below `stack_top` in at most `max_size`
/// bytes: returns the new stack pointer and the bytes from it up to
/// `stack_top`. Fails with `ENOMEM` where they do not fit.
pub fn do_init(
    stack_top: usize,
    max_size: usize,
    argv: &Vec<String>,
    envp: &Vec<String>,
    auxtbl: &AuxTable,
) -> (r: Result<(usize, Vec<u8>), Error>)
    ensures
        match spec_stack(stack_top as int, max_size as int, argv@, envp@, aux_pairs(auxtbl@)) {
            Some((sp, bytes)) => r is Ok && r->Ok_0.0 == sp && r->Ok_0.1@ == bytes,
            None => r is Err && r->Err_0.errno == Errno::ENOMEM,
        },
{
    let ghost strs = strings_bytes(argv@) + strings_bytes(envp@);
    let ghost full = cstr_pool(strs);
    // the string pool, and where each string starts in it
    let mut pool: Vec<u8> = Vec::new();
    let mut offsets: Vec<usize> = Vec::new();
    let argc = argv.len();
    if argc > usize::MAX - envp.len() {
        proof {
            lemma_pool_len(strs);
        }
        return Err(Error::new(Errno::ENOMEM, "initial stack too large"));
    }
    let n = argv.len() + envp.len();
    let mut k: usize = 0;
    while k < n
        invariant
            k <= n,
            argc == argv@.len(),
            n == argv@.len() + envp@.len(),
            strs == strings_bytes(argv@) + strings_bytes(envp@),
            full == cstr_pool(strs),
            pool@ == cstr_pool(strs.take(k as int)),
            offsets@.len() == k,
            forall|j: int| 0 <= j < k ==> offsets@[j] == cstr_pool(strs.take(j)).len(),
            pool@.len() <= max_size,
        decreases n - k,
    {
        let s: &String = if k < argc {
            &argv[k]
        } else {
            &envp[k - argc]
        };
        let bytes: &[u8] = s.as_str().as_bytes();
        assert(bytes@ == strs[k as int]);
        proof {
            lemma_pool_prefix(strs, k as int);
        }
        if bytes.len() >= max_size - pool.len() {
            return Err(Error::new(Errno::ENOMEM, "initial stack too large"));
        }
        offsets.push(pool.len());
        let mut j: usize = 0;
        let ghost before = pool@;
        while j < bytes.len()
            invariant
                j <= bytes@.len(),
                pool@ == before + bytes@.take(j as int),
            decreases bytes@.len() - j,
        {
            pool.push(bytes[j]);
            j = j + 1;
            assert(pool@ =~= before + bytes@.take(j as int));
        }
        pool.push(0u8);
        proof {
            assert(bytes@.take(bytes@.len() as int) =~= bytes@);
            assert(strs.take(k + 1).drop_last() =~= strs.take(k as int));
        }
        k = k + 1;
    }
    proof {
        lemma_pool_take_all(strs);
    }
    let pool_len = pool.len();
    if pool_len > stack_top {
        return Err(Error::new(Errno::ENOMEM, "initial stack too large"));
    }
    let pool_base = stack_top - pool_len;
    let ghost ptrs = string_ptrs(strs, pool_base as int);
    assert forall|j: int| 0 <= j < n implies offsets@[j] <= pool_len by {
        lemma_pool_prefix(strs, j);
    }
    // argc, then the argv pointers and NULL, then the envp pointers and NULL
    let mut words: Vec<u64> = Vec::new();
    words.push(argc as u64);
    let mut j: usize = 0;
    while j < argc
        invariant
            j <= argc,
            argc <= n,
            offsets@.len() == n,
            pool_base + pool_len == stack_top,
            forall|i: int| 0 <= i < n ==> offsets@[i] <= pool_len,
            forall|i: int| 0 <= i < n ==> offsets@[i] == cstr_pool(strs.take(i)).len(),
            ptrs == string_ptrs(strs, pool_base as int),
            strs.len() == n,
            words@ == seq![argc as u64] + ptrs.take(j as int),
        decreases argc - j,
    {
        words.push((pool_base + offsets[j]) as u64);
        j = j + 1;
        assert(words@ =~= seq![argc as u64] + ptrs.take(j as int));
    }
    words.push(0u64);
    let ghost head = words@;
    assert(head =~= seq![argc as u64] + ptrs.take(argc as int) + seq![0u64]);
    while j < n
        invariant
            argc <= j <= n,
            offsets@.len() == n,
            pool_base + pool_len == stack_top,
            forall|i: int| 0 <= i < n ==> offsets@[i] <= pool_len,
            forall|i: int| 0 <= i < n ==> offsets@[i] == cstr_pool(strs.take(i)).len(),
            ptrs == string_ptrs(strs, pool_base as int),
            strs.len() == n,
            words@ == head + ptrs.subrange(argc as int, j as int),
        decreases n - j,
    {
        words.push((pool_base + offsets[j]) as u64);
        j = j + 1;
        assert(words@ =~= head + ptrs.subrange(argc as int, j as int));
    }
    words.push(0u64);
    let aux = encode_auxv(&auxtbl.table());
    let ghost mid = words@;
    let mut j: usize = 0;
    while j < aux.len()
        invariant
            j <= aux@.len(),
            words@ == mid + aux@.take(j as int),
        decreases aux@.len() - j,
    {
        words.push(aux[j]);
        j = j + 1;
        assert(words@ =~= mid + aux@.take(j as int));
    }
    proof {
        assert(aux@.take(aux@.len() as int) =~= aux@);
        assert(ptrs.subrange(argc as int, n as int) =~= ptrs.skip(argc as int));
        assert(words@ =~= stack_words(argc as int, ptrs, aux_pairs(auxtbl@)));
    }
    let nwords = words.len();
    if nwords > pool_base / 8 {
        proof {
            let b = pool_base as int;
            let w = nwords as int;
            assert(8 * w > b) by (nonlinear_arith) requires w > b / 8, b >= 0;
        }
        return Err(Error::new(Errno::ENOMEM, "initial stack too large"));
    }
    proof {
        let b = pool_base as int;
        let w = nwords as int;
        assert(8 * w <= b) by (nonlinear_arith) requires w <= b / 8, b >= 0;
    }
    let words_base = pool_base - 8 * nwords;
    let sp = align_down(words_base, 16);
    if stack_top - sp > max_size {
        return Err(Error::new(Errno::ENOMEM, "initial stack too large"));
    }
    let mut out: Vec<u8> = Vec::new();
    let mut i: usize = 0;
    while i < nwords
        invariant
            i <= nwords,
            nwords == words@.len(),
            out@ == words_le(words@.take(i as int)),
        decreases nwords - i,
    {
        push_word(&mut out, words[i]);
        proof {
            assert(words@.take(i + 1).drop_last() =~= words@.take(i as int));
        }
        i = i + 1;
    }
    assert(words@.take(nwords as int) =~= words@);
    let ghost wl = out@;
    let gap = words_base - sp;
    let mut i: usize = 0;
    while i < gap
        invariant
            i <= gap,
            out@ == wl + Seq::new(i as nat, |x: int| 0u8),
        decreases gap - i,
    {
        out.push(0u8);
        i = i + 1;
        assert(out@ =~= wl + Seq::new(i as nat, |x: int| 0u8));
    }
    let ghost wg = out@;
    let mut i: usize = 0;
    while i < pool_len
        invariant
            i <= pool_len,
            pool_len == pool@.len(),
            out@ == wg + pool@.take(i as int),
        decreases pool_len - i,
    {
        out.push(pool[i]);
        i = i + 1;
        assert(out@ =~= wg + pool@.take(i as int));
    }
    assert(pool@.take(pool_len as int) =~= pool@);
    Ok((sp, out))
}

} // verus!
