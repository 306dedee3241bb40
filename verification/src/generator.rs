use vstd::prelude::*;

verus! {

/// Smallest number of passwords in one batch.
pub const MIN_COUNT: usize = 1;
/// Largest number of passwords in one batch.
pub const MAX_COUNT: usize = 99;
/// Shortest password length.
pub const MIN_LENGTH: usize = 4;
/// Longest password length.
pub const MAX_LENGTH: usize = 64;
/// Characters removed by the lookalike filter.
pub const AMBIGUOUS: &'static str = "Il1O0o5S8B";

/// Which character groups a batch draws from.
#[derive(Clone, Copy, Debug, Eq, PartialEq)]
pub struct GenerationOptions {
    pub lowercase: bool,
    pub uppercase: bool,
    pub numbers: bool,
    pub symbols: bool,
    pub exclude_ambiguous: bool,
}

/// `a`..`z` as bytes.
pub open spec fn lowercase_chars() -> Seq<u8> {
    Seq::new(26, |i: int| (97 + i) as u8)
}

/// `A`..`Z` as bytes.
pub open spec fn uppercase_chars() -> Seq<u8> {
    Seq::new(26, |i: int| (65 + i) as u8)
}

/// `0`..`9` as bytes.
pub open spec fn number_chars() -> Seq<u8> {
    Seq::new(10, |i: int| (48 + i) as u8)
}

/// `!@#$%^&*_-+=?` as bytes.
pub open spec fn symbol_chars() -> Seq<u8> {
    seq![33u8, 64u8, 35u8, 36u8, 37u8, 94u8, 38u8, 42u8, 95u8, 45u8, 43u8, 61u8, 63u8]
}

/// One of `I l 1 O 0 o 5 S 8 B`.
pub open spec fn is_ambiguous(c: u8) -> bool {
    c == 73 || c == 108 || c == 49 || c == 79 || c == 48 || c == 111 || c == 53 || c == 83
        || c == 56 || c == 66
}

/// The predicate the lookalike filter keeps.
pub open spec fn unambiguous() -> spec_fn(u8) -> bool {
    |c: u8| !is_ambiguous(c)
}

/// A character group, with lookalikes removed when asked.
pub open spec fn group_of(chars: Seq<u8>, exclude_ambiguous: bool) -> Seq<u8> {
    if exclude_ambiguous {
        chars.filter(unambiguous())
    } else {
        chars
    }
}

/// Appends `group` when `enabled`.
pub open spec fn push_if(groups: Seq<Seq<u8>>, enabled: bool, group: Seq<u8>) -> Seq<Seq<u8>> {
    if enabled {
        groups.push(group)
    } else {
        groups
    }
}

/// The enabled groups, in the order lowercase, uppercase, numbers, symbols.
pub open spec fn selected_groups(options: GenerationOptions) -> Seq<Seq<u8>> {
    let x = options.exclude_ambiguous;
    push_if(
        push_if(
            push_if(
                push_if(Seq::empty(), options.lowercase, group_of(lowercase_chars(), x)),
                options.uppercase,
                group_of(uppercase_chars(), x),
            ),
            options.numbers,
            group_of(number_chars(), x),
        ),
        options.symbols,
        group_of(symbol_chars(), x),
    )
}

/// At least one group is enabled.
pub open spec fn any_group(options: GenerationOptions) -> bool {
    options.lowercase || options.uppercase || options.numbers || options.symbols
}

fn is_ambiguous_byte(c: u8) -> (r: bool)
    ensures
        r == is_ambiguous(c),
{
    c == 73 || c == 108 || c == 49 || c == 79 || c == 48 || c == 111 || c == 53 || c == 83
        || c == 56 || c == 66
}

fn byte_range(first: u8, count: u8) -> (r: Vec<u8>)
    requires
        first + count <= 256,
    ensures
        r@ == Seq::new(count as nat, |i: int| (first + i) as u8),
{
    let mut out: Vec<u8> = Vec::new();
    let mut i: u8 = 0;
    while i < count
        invariant
            i <= count,
            first + count <= 256,
            out@ == Seq::new(i as nat, |k: int| (first + k) as u8),
        decreases count - i,
    {
        out.push(first + i);
        i = i + 1;
        assert(out@ =~= Seq::new(i as nat, |k: int| (first + k) as u8));
    }
    out
}

fn without_ambiguous(chars: &Vec<u8>) -> (r: Vec<u8>)
    ensures
        r@ == chars@.filter(unambiguous()),
{
    let mut out: Vec<u8> = Vec::new();
    let mut i: usize = 0;
    while i < chars.len()
        invariant
            i <= chars.len(),
            out@ == chars@.take(i as int).filter(unambiguous()),
        decreases chars.len() - i,
    {
        proof {
            reveal_with_fuel(Seq::<_>::filter, 1);
            assert(chars@.take(i + 1).drop_last() =~= chars@.take(i as int));
        }
        if !is_ambiguous_byte(chars[i]) {
            out.push(chars[i]);
        }
        i = i + 1;
    }
    assert(chars@.take(chars.len() as int) =~= chars@);
    out
}

fn add_group(
    groups: &mut Vec<Vec<u8>>,
    enabled: bool,
    characters: Vec<u8>,
    exclude_ambiguous: bool,
)
    ensures
        final(groups).deep_view() == push_if(
            old(groups).deep_view(),
            enabled,
            group_of(characters@, exclude_ambiguous),
        ),
{
    if !enabled {
        return;
    }
    let ghost chars = characters@;
    let group = if exclude_ambiguous {
        without_ambiguous(&characters)
    } else {
        characters
    };
    assert(group@ == group_of(chars, exclude_ambiguous));
    let ghost before = groups.deep_view();
    groups.push(group);
    assert forall|k: int| 0 <= k < groups.deep_view().len() implies groups.deep_view()[k]
        == before.push(group_of(chars, exclude_ambiguous))[k] by {
        if k < before.len() {
            assert(groups@[k] == old(groups)@[k]);
        }
    }
    assert(groups.deep_view() =~= before.push(group_of(chars, exclude_ambiguous)));
}

/// The enabled character groups, each without lookalikes when the filter is on.
pub fn build_groups(options: GenerationOptions) -> (groups: Vec<Vec<u8>>)
    ensures
        groups.deep_view() == selected_groups(options),
{
    let mut groups: Vec<Vec<u8>> = Vec::new();
    assert(groups.deep_view() =~= Seq::<Seq<u8>>::empty());
    let lower = byte_range(97, 26);
    assert(lower@ =~= lowercase_chars());
    add_group(&mut groups, options.lowercase, lower, options.exclude_ambiguous);
    let upper = byte_range(65, 26);
    assert(upper@ =~= uppercase_chars());
    add_group(&mut groups, options.uppercase, upper, options.exclude_ambiguous);
    let digits = byte_range(48, 10);
    assert(digits@ =~= number_chars());
    add_group(&mut groups, options.numbers, digits, options.exclude_ambiguous);
    let symbols: Vec<u8> = vec![33u8, 64u8, 35u8, 36u8, 37u8, 94u8, 38u8, 42u8, 95u8, 45u8, 43u8, 61u8, 63u8];
    assert(symbols@ =~= symbol_chars());
    add_group(&mut groups, options.symbols, symbols, options.exclude_ambiguous);
    groups
}


/// A byte stream that the generator draws from, four bytes at a time.
///
/// Nothing is assumed of what `fill` writes or whether it fails: every
/// contract below holds for every outcome.
pub trait RandomSource {
    type Error;

    fn fill(&mut self, destination: &mut [u8; 4]) -> Result<(), Self::Error>;
}

#[verifier::external_type_specification]
#[verifier::external_body]
pub struct ExEntropyError(getrandom::Error);

/// Calls `getrandom::fill`, which fills the buffer from the operating
/// system's random number source or returns the source's error. Nothing is
/// stated of the bytes or of which of the two happens: both depend on the
/// machine.
#[verifier::external_body]
fn os_fill(destination: &mut [u8; 4]) -> Result<(), getrandom::Error> {
    getrandom::fill(destination)
}

/// Operating-system entropy; there is no fallback generator.
pub struct OsRandom;

impl RandomSource for OsRandom {
    type Error = getrandom::Error;

    fn fill(&mut self, destination: &mut [u8; 4]) -> Result<(), getrandom::Error> {
        os_fill(destination)
    }
}

/// Calls `zeroize::Zeroize::zeroize` on a byte array, which overwrites every
/// element with zero.
#[verifier::external_body]
fn wipe_word(bytes: &mut [u8; 4])
    ensures
        final(bytes)@ == seq![0u8, 0u8, 0u8, 0u8],
{
    zeroize::Zeroize::zeroize(bytes)
}

/// Calls `zeroize::Zeroize::zeroize` on a byte vector, which overwrites the
/// elements and the spare capacity with zero and then clears the vector.
#[verifier::external_body]
fn wipe_bytes(bytes: &mut Vec<u8>)
    ensures
        final(bytes)@.len() == 0,
{
    zeroize::Zeroize::zeroize(bytes)
}

/// Calls `zeroize::Zeroize::zeroize` on a string, which zeroizes its byte
/// buffer as for a vector and leaves the string empty.
#[verifier::external_body]
fn wipe_string(text: &mut String)
    ensures
        final(text)@.len() == 0,
{
    zeroize::Zeroize::zeroize(text)
}

/// Calls `String::from_utf8`. ASCII bytes are valid UTF-8, each byte
/// encoding the character of the same value, so the call succeeds.
#[verifier::external_body]
fn ascii_to_string(bytes: Vec<u8>) -> (text: String)
    requires
        forall|k: int| 0 <= k < bytes@.len() ==> bytes@[k] < 128,
    ensures
        text@ == as_chars(bytes@),
{
    String::from_utf8(bytes).expect("ASCII bytes are valid UTF-8")
}

/// Bytes read as the characters of the same value.
pub open spec fn as_chars(bytes: Seq<u8>) -> Seq<char> {
    bytes.map_values(|b: u8| b as char)
}

/// Two to the thirty-second power: the number of distinct 32-bit draws.
pub open spec fn draw_range() -> int {
    0x1_0000_0000
}

/// The largest multiple of `maximum` that does not exceed the draw range;
/// draws at or above it are rejected.
pub open spec fn acceptance_ceiling(maximum: int) -> int {
    draw_range() - draw_range() % maximum
}

/// The little-endian value of four bytes.
pub open spec fn le_word(bytes: Seq<u8>) -> int {
    bytes[0] + bytes[1] * 256 + bytes[2] * 65536 + bytes[3] * 16777216
}

/// Rejection sampling is uniform: the accepting ceiling is a multiple of
/// `maximum` that rejects fewer than `maximum` draws, and the accepted draws
/// are exactly the values `index + j * maximum` with `index < maximum` and
/// `j < ceiling / maximum`, each reduced to its own `index`. So every index is
/// the image of the same number of accepted draws.
pub proof fn lemma_rejection_sampling_is_uniform(maximum: int)
    requires
        0 < maximum <= draw_range(),
    ensures
        acceptance_ceiling(maximum) % maximum == 0,
        draw_range() - maximum < acceptance_ceiling(maximum) <= draw_range(),
        forall|index: int, j: int|
            0 <= index < maximum && 0 <= j < acceptance_ceiling(maximum) / maximum ==> {
                &&& 0 <= #[trigger] (index + j * maximum) < acceptance_ceiling(maximum)
                &&& (index + j * maximum) % maximum == index
            },
        forall|v: int|
            0 <= v < acceptance_ceiling(maximum) ==> {
                &&& v == v % maximum + (#[trigger] (v / maximum)) * maximum
                &&& 0 <= v / maximum < acceptance_ceiling(maximum) / maximum
            },
{
    let d = draw_range();
    let q = d / maximum;
    let r = d % maximum;
    vstd::arithmetic::div_mod::lemma_fundamental_div_mod(d, maximum);
    assert(d == maximum * q + r);
    assert(0 <= r < maximum);
    let c = acceptance_ceiling(maximum);
    assert(c == q * maximum) by (nonlinear_arith)
        requires
            c == d - r,
            d == maximum * q + r,
    ;
    vstd::arithmetic::div_mod::lemma_fundamental_div_mod_converse(c, maximum, q, 0);
    assert(c / maximum == q);
    assert forall|index: int, j: int|
        0 <= index < maximum && 0 <= j < c / maximum implies {
            &&& 0 <= #[trigger] (index + j * maximum) < c
            &&& (index + j * maximum) % maximum == index
        } by {
        assert(0 <= j * maximum <= (q - 1) * maximum) by (nonlinear_arith)
            requires
                0 <= j < q,
                0 < maximum,
        ;
        assert((q - 1) * maximum == q * maximum - maximum) by (nonlinear_arith);
        vstd::arithmetic::div_mod::lemma_fundamental_div_mod_converse(
            index + j * maximum,
            maximum,
            j,
            index,
        );
    }
    assert forall|v: int| 0 <= v < c implies {
        &&& v == v % maximum + (#[trigger] (v / maximum)) * maximum
        &&& 0 <= v / maximum < c / maximum
    } by {
        vstd::arithmetic::div_mod::lemma_fundamental_div_mod(v, maximum);
        assert(maximum * (v / maximum) == (v / maximum) * maximum) by (nonlinear_arith);
        assert(0 <= v / maximum < q) by (nonlinear_arith)
            requires
                0 <= v < q * maximum,
                v == maximum * (v / maximum) + v % maximum,
                0 <= v % maximum < maximum,
                0 < maximum,
        ;
    }
}

/// Maps one 32-bit draw onto `0..exclusive_maximum`, or rejects it.
///
/// The draw is accepted exactly when it lies below the largest multiple of
/// `exclusive_maximum` in the draw range; accepted draws are reduced modulo
/// `exclusive_maximum`, so each index is reached by the same number of draws.
pub fn index_from_draw(value: u32, exclusive_maximum: usize) -> (index: Option<usize>)
    requires
        0 < exclusive_maximum <= draw_range(),
    ensures
        index == (if value < acceptance_ceiling(exclusive_maximum as int) {
            Some(((value as int) % (exclusive_maximum as int)) as usize)
        } else {
            None::<usize>
        }),
{
    let maximum = exclusive_maximum as u64;
    let range: u64 = 0x1_0000_0000;
    let ceiling = range - range % maximum;
    if (value as u64) < ceiling {
        Some(((value as u64) % maximum) as usize)
    } else {
        None
    }
}

/// One index picked from a random source: its exclusive bound and the index.
pub struct Pick {
    pub bound: usize,
    pub index: usize,
}

/// A random source together with the record of what was drawn from it:
/// the result of every fill, read as a little-endian word, and every index
/// picked from those words.
pub struct Draws<R: RandomSource> {
    pub source: R,
    pub words: Ghost<Seq<Result<u32, R::Error>>>,
    pub picks: Ghost<Seq<Pick>>,
}

impl<R: RandomSource> Draws<R> {
    /// Starts recording draws from `source`.
    pub fn new(source: R) -> (draws: Self)
        ensures
            draws.source == source,
            draws.words@ == Seq::<Result<u32, R::Error>>::empty(),
            draws.picks@ == Seq::<Pick>::empty(),
    {
        Draws { source, words: Ghost(Seq::empty()), picks: Ghost(Seq::empty()) }
    }
}

/// `draws` are what one rejection-sampled pick below `maximum` read and
/// `result` is what it gave: every draw but the last was a word at or above
/// the acceptance ceiling; a failed last fill gives its error as is; an
/// accepted last word gives its remainder by `maximum`. Only after
/// `u64::MAX` rejected words is the last word reduced although rejected.
pub open spec fn index_drawn<E>(draws: Seq<Result<u32, E>>, maximum: int, result: Result<usize, E>) -> bool {
    &&& draws.len() >= 1
    &&& forall|k: int|
        0 <= k < draws.len() - 1 ==> (#[trigger] draws[k] matches Ok(w) && w >= acceptance_ceiling(
            maximum,
        ))
    &&& match draws.last() {
        Err(e) => result == Err::<usize, E>(e),
        Ok(w) => {
            &&& result == Ok::<usize, E>((w as int % maximum) as usize)
            &&& (w < acceptance_ceiling(maximum) || draws.len() as int == u64::MAX as int + 1)
        },
    }
}

/// `after` is `before` followed by `added`.
pub open spec fn extended<T>(before: Seq<T>, after: Seq<T>) -> bool {
    before.len() <= after.len() && after.take(before.len() as int) == before
}

/// `words` are exactly the words that `picks` read, in order: each pick read
/// a stretch of words of its own, from which rejection sampling below the
/// pick's bound gave the pick's index (`index_drawn`).
#[verifier::opaque]
pub open spec fn picks_read<E>(words: Seq<Result<u32, E>>, picks: Seq<Pick>) -> bool
    decreases picks.len(),
{
    if picks.len() == 0 {
        words.len() == 0
    } else {
        exists|n: int|
            1 <= n <= words.len() && #[trigger] index_drawn(
                words.take(n),
                picks[0].bound as int,
                Ok::<usize, E>(picks[0].index),
            ) && picks_read(words.skip(n), picks.drop_first())
    }
}

/// `words` are those that `picks` read, followed by the stretch of a pick
/// whose last fill failed with `error`.
#[verifier::opaque]
pub open spec fn read_until_failure<E>(words: Seq<Result<u32, E>>, picks: Seq<Pick>, error: E) -> bool {
    exists|m: int, bound: int|
        #![trigger picks_read(words.take(m), picks), index_drawn(words.skip(m), bound, Err::<usize, E>(error))]
        0 <= m <= words.len() && picks_read(words.take(m), picks) && index_drawn(
            words.skip(m),
            bound,
            Err::<usize, E>(error),
        )
}

/// No picks read no words.
proof fn lemma_nothing_read<E>()
    ensures
        picks_read(Seq::<Result<u32, E>>::empty(), Seq::<Pick>::empty()),
{
    reveal_with_fuel(picks_read, 1);
}

/// One pick reads its own stretch.
proof fn lemma_one_pick<E>(stretch: Seq<Result<u32, E>>, pick: Pick)
    requires
        index_drawn(stretch, pick.bound as int, Ok::<usize, E>(pick.index)),
    ensures
        picks_read(stretch, seq![pick]),
{
    reveal_with_fuel(picks_read, 2);
    let n = stretch.len() as int;
    assert(stretch.take(n) =~= stretch);
    assert(stretch.skip(n) =~= Seq::<Result<u32, E>>::empty());
    assert(seq![pick].drop_first() =~= Seq::<Pick>::empty());
    assert(picks_read(stretch.skip(n), seq![pick].drop_first()));
    assert(index_drawn(stretch.take(n), seq![pick][0].bound as int, Ok::<usize, E>(seq![pick][0].index)));
}

/// Reads follow one another: the words of two runs of picks are the words of
/// the joined picks.
proof fn lemma_picks_concat<E>(w1: Seq<Result<u32, E>>, p1: Seq<Pick>, w2: Seq<Result<u32, E>>, p2: Seq<Pick>)
    requires
        picks_read(w1, p1),
        picks_read(w2, p2),
    ensures
        picks_read(w1 + w2, p1 + p2),
    decreases p1.len(),
{
    reveal_with_fuel(picks_read, 1);
    if p1.len() == 0 {
        assert(w1 =~= Seq::<Result<u32, E>>::empty());
        assert(w1 + w2 =~= w2);
        assert(p1 + p2 =~= p2);
    } else {
        let n = choose|n: int|
            1 <= n <= w1.len() && #[trigger] index_drawn(
                w1.take(n),
                p1[0].bound as int,
                Ok::<usize, E>(p1[0].index),
            ) && picks_read(w1.skip(n), p1.drop_first());
        lemma_picks_concat(w1.skip(n), p1.drop_first(), w2, p2);
        let w = w1 + w2;
        let p = p1 + p2;
        assert(w.take(n) =~= w1.take(n));
        assert(w.skip(n) =~= w1.skip(n) + w2);
        assert(p.drop_first() =~= p1.drop_first() + p2);
        assert(p[0] == p1[0]);
        assert(1 <= n <= w.len() && index_drawn(w.take(n), p[0].bound as int, Ok::<usize, E>(p[0].index))
            && picks_read(w.skip(n), p.drop_first()));
    }
}

/// A failed pick after a run of picks.
proof fn lemma_failure_after<E>(w1: Seq<Result<u32, E>>, p1: Seq<Pick>, stretch: Seq<Result<u32, E>>, bound: int, error: E)
    requires
        picks_read(w1, p1),
        index_drawn(stretch, bound, Err::<usize, E>(error)),
    ensures
        read_until_failure(w1 + stretch, p1, error),
{
    reveal(read_until_failure);
    let w = w1 + stretch;
    let m = w1.len() as int;
    assert(w.take(m) =~= w1);
    assert(w.skip(m) =~= stretch);
    assert(picks_read(w.take(m), p1));
    assert(index_drawn(w.skip(m), bound, Err::<usize, E>(error)));
}

/// A failure after a run of picks that itself follows a run of picks.
proof fn lemma_failure_concat<E>(w1: Seq<Result<u32, E>>, p1: Seq<Pick>, w2: Seq<Result<u32, E>>, p2: Seq<Pick>, error: E)
    requires
        picks_read(w1, p1),
        read_until_failure(w2, p2, error),
    ensures
        read_until_failure(w1 + w2, p1 + p2, error),
{
    reveal(read_until_failure);
    let (m, bound) = choose|m: int, bound: int|
        #![trigger picks_read(w2.take(m), p2), index_drawn(w2.skip(m), bound, Err::<usize, E>(error))]
        0 <= m <= w2.len() && picks_read(w2.take(m), p2) && index_drawn(
            w2.skip(m),
            bound,
            Err::<usize, E>(error),
        );
    lemma_picks_concat(w1, p1, w2.take(m), p2);
    let w = w1 + w2;
    let m2 = w1.len() + m;
    assert(w.take(m2) =~= w1 + w2.take(m));
    assert(w.skip(m2) =~= w2.skip(m));
    assert(picks_read(w.take(m2), p1 + p2));
    assert(index_drawn(w.skip(m2), bound, Err::<usize, E>(error)));
}

/// Two runs of picks, one after the other, read the words of both.
proof fn lemma_runs_join<E>(
    w0: Seq<Result<u32, E>>,
    w1: Seq<Result<u32, E>>,
    w2: Seq<Result<u32, E>>,
    p0: Seq<Pick>,
    p1: Seq<Pick>,
    p2: Seq<Pick>,
    error: Option<E>,
)
    requires
        extended(w0, w1),
        extended(w1, w2),
        extended(p0, p1),
        extended(p1, p2),
        picks_read(w1.skip(w0.len() as int), p1.skip(p0.len() as int)),
        error is None ==> picks_read(w2.skip(w1.len() as int), p2.skip(p1.len() as int)),
        error matches Some(e) ==> read_until_failure(
            w2.skip(w1.len() as int),
            p2.skip(p1.len() as int),
            e,
        ),
    ensures
        error is None ==> picks_read(w2.skip(w0.len() as int), p2.skip(p0.len() as int)),
        error matches Some(e) ==> read_until_failure(
            w2.skip(w0.len() as int),
            p2.skip(p0.len() as int),
            e,
        ),
{
    lemma_skip_split(w1, w2, w0.len() as int);
    lemma_skip_split(p1, p2, p0.len() as int);
    match error {
        None => lemma_picks_concat(
            w1.skip(w0.len() as int),
            p1.skip(p0.len() as int),
            w2.skip(w1.len() as int),
            p2.skip(p1.len() as int),
        ),
        Some(e) => lemma_failure_concat(
            w1.skip(w0.len() as int),
            p1.skip(p0.len() as int),
            w2.skip(w1.len() as int),
            p2.skip(p1.len() as int),
            e,
        ),
    }
}

/// What a recorded sequence holds past its start, once it has grown twice.
proof fn lemma_skip_split<T>(a: Seq<T>, b: Seq<T>, n: int)
    requires
        extended(a, b),
        0 <= n <= a.len(),
    ensures
        b.skip(n) == a.skip(n) + b.skip(a.len() as int),
{
    assert(b.skip(n) =~= a.skip(n) + b.skip(a.len() as int)) by {
        assert forall|k: int| 0 <= k < b.len() - n implies #[trigger] b.skip(n)[k] == (a.skip(n)
            + b.skip(a.len() as int))[k] by {
            if n + k < a.len() {
                assert(b.take(a.len() as int)[n + k] == a[n + k]);
            }
        }
    }
}

/// One more pick on a run of picks that read their words: the run keeps
/// reading its words, or ends in the failed fill.
proof fn lemma_read_step<E>(
    w0: int,
    p0: int,
    words_before: Seq<Result<u32, E>>,
    words_after: Seq<Result<u32, E>>,
    picks_before: Seq<Pick>,
    picks_after: Seq<Pick>,
    bound: usize,
    result: Result<usize, E>,
)
    requires
        extended(words_before, words_after),
        0 <= w0 <= words_before.len(),
        0 <= p0 <= picks_before.len(),
        picks_read(words_before.skip(w0), picks_before.skip(p0)),
        index_drawn(words_after.skip(words_before.len() as int), bound as int, result),
        result matches Ok(i) ==> picks_after == picks_before.push(Pick { bound, index: i }),
        result is Err ==> picks_after == picks_before,
    ensures
        result is Ok ==> picks_read(words_after.skip(w0), picks_after.skip(p0)),
        result matches Err(e) ==> read_until_failure(words_after.skip(w0), picks_after.skip(p0), e),
{
    lemma_skip_split(words_before, words_after, w0);
    let stretch = words_after.skip(words_before.len() as int);
    match result {
        Ok(i) => {
            let pick = Pick { bound, index: i };
            lemma_one_pick(stretch, pick);
            lemma_picks_concat(words_before.skip(w0), picks_before.skip(p0), stretch, seq![pick]);
            assert(picks_after.skip(p0) =~= picks_before.skip(p0) + seq![pick]);
        },
        Err(e) => {
            lemma_failure_after(words_before.skip(w0), picks_before.skip(p0), stretch, bound as int, e);
        },
    }
}

/// Draws an index below `exclusive_maximum` by rejection sampling; see
/// `index_drawn`. The pick is recorded.
///
/// A failed fill is returned as is. After `u64::MAX` consecutive rejected
/// draws the last draw is reduced without rejection, so that the loop ends.
pub fn next_index<R: RandomSource>(exclusive_maximum: usize, random: &mut Draws<R>) -> (index: Result<
    usize,
    R::Error,
>)
    requires
        0 < exclusive_maximum <= draw_range(),
    ensures
        extended(old(random).words@, final(random).words@),
        index_drawn(
            final(random).words@.skip(old(random).words@.len() as int),
            exclusive_maximum as int,
            index,
        ),
        index matches Ok(i) ==> i < exclusive_maximum && final(random).picks@ == old(
            random,
        ).picks@.push(Pick { bound: exclusive_maximum, index: i }),
        index is Err ==> final(random).picks@ == old(random).picks@,
{
    let ghost start = random.words@;
    let mut bytes: [u8; 4] = [0u8; 4];
    let mut rejected: u64 = 0;
    assert(random.words@.take(start.len() as int) =~= start);
    loop
        invariant
            0 < exclusive_maximum <= draw_range(),
            extended(start, random.words@),
            random.words@.len() == start.len() + rejected,
            forall|k: int|
                start.len() <= k < random.words@.len() ==> (#[trigger] random.words@[k] matches Ok(
                    w,
                ) && w >= acceptance_ceiling(exclusive_maximum as int)),
            random.picks@ == old(random).picks@,
            start == old(random).words@,
        decreases u64::MAX - rejected,
    {
        let filled = random.source.fill(&mut bytes);
        match filled {
            Ok(()) => {},
            Err(error) => {
                random.words = Ghost(random.words@.push(Err(error)));
                proof {
                    let new = random.words@.skip(start.len() as int);
                    assert forall|k: int| 0 <= k < new.len() - 1 implies (#[trigger] new[k] matches Ok(
                        w,
                    ) && w >= acceptance_ceiling(exclusive_maximum as int)) by {
                        assert(new[k] == random.words@[start.len() + k]);
                    }
                    assert(random.words@.take(start.len() as int) =~= start);
                }
                wipe_word(&mut bytes);
                return Err(error);
            },
        }
        let value = word_from_le(&bytes);
        random.words = Ghost(random.words@.push(Ok(value)));
        proof {
            let new = random.words@.skip(start.len() as int);
            assert forall|k: int| 0 <= k < new.len() - 1 implies (#[trigger] new[k] matches Ok(w)
                && w >= acceptance_ceiling(exclusive_maximum as int)) by {
                assert(new[k] == random.words@[start.len() + k]);
            }
            assert(random.words@.take(start.len() as int) =~= start);
            assert(new.last() == Ok::<u32, R::Error>(value));
        }
        let accepted = index_from_draw(value, exclusive_maximum);
        if let Some(index) = accepted {
            wipe_word(&mut bytes);
            random.picks = Ghost(random.picks@.push(Pick { bound: exclusive_maximum, index }));
            return Ok(index);
        }
        if rejected == u64::MAX {
            wipe_word(&mut bytes);
            let index = ((value as u64) % (exclusive_maximum as u64)) as usize;
            random.picks = Ghost(random.picks@.push(Pick { bound: exclusive_maximum, index }));
            return Ok(index);
        }
        rejected = rejected + 1;
    }
}

fn word_from_le(bytes: &[u8; 4]) -> (value: u32)
    ensures
        value == le_word(bytes@),
{
    let b0 = bytes[0] as u32;
    let b1 = bytes[1] as u32;
    let b2 = bytes[2] as u32;
    let b3 = bytes[3] as u32;
    b0 + b1 * 256 + b2 * 65536 + b3 * 16777216
}

/// `s` with the elements at `i` and `j` exchanged.
pub open spec fn swapped(s: Seq<u8>, i: int, j: int) -> Seq<u8> {
    s.update(i, s[j]).update(j, s[i])
}

/// The Fisher–Yates passes over `s` that start at index `top` and go down
/// one index per draw: the pass at index `top - k` exchanges that element
/// with the one at `draws[k]`.
pub open spec fn fisher_yates_passes(s: Seq<u8>, top: int, draws: Seq<int>) -> Seq<u8>
    decreases draws.len(),
{
    if draws.len() == 0 {
        s
    } else {
        fisher_yates_passes(swapped(s, top, draws[0]), top - 1, draws.drop_first())
    }
}

/// The indices of `picks`.
pub open spec fn pick_indices(picks: Seq<Pick>) -> Seq<int> {
    picks.map_values(|p: Pick| p.index as int)
}

/// The picks of a Fisher–Yates shuffle of `len` elements, from the last
/// index down: the `k`-th is bounded by `len - k` and lies below its bound.
pub open spec fn shuffle_picks(picks: Seq<Pick>, len: int) -> bool {
    forall|k: int|
        0 <= k < picks.len() ==> (#[trigger] picks[k]).bound == len - k && picks[k].index
            < picks[k].bound
}

/// The first `n` entries of `s` stay while `s` grows.
proof fn lemma_extended_trans<T>(a: Seq<T>, b: Seq<T>, c: Seq<T>)
    requires
        extended(a, b),
        extended(b, c),
    ensures
        extended(a, c),
{
    assert(c.take(a.len() as int) =~= b.take(a.len() as int));
}

/// A source's words keep their start as more are drawn; the latest new
/// words are the last ones.
proof fn lemma_skip_push<T>(s: Seq<T>, n: int, x: T)
    requires
        0 <= n <= s.len(),
    ensures
        s.push(x).skip(n) == s.skip(n).push(x),
        s.push(x).take(n) == s.take(n),
{
    assert(s.push(x).skip(n) =~= s.skip(n).push(x));
    assert(s.push(x).take(n) =~= s.take(n));
}

proof fn lemma_passes_push(s: Seq<u8>, top: int, draws: Seq<int>, j: int)
    ensures
        fisher_yates_passes(s, top, draws.push(j)) == swapped(
            fisher_yates_passes(s, top, draws),
            top - draws.len(),
            j,
        ),
    decreases draws.len(),
{
    if draws.len() == 0 {
        assert(draws.push(j).drop_first() =~= Seq::<int>::empty());
        assert(draws.push(j)[0] == j);
        assert(fisher_yates_passes(s, top, draws) == s);
        assert(fisher_yates_passes(swapped(s, top, j), top - 1, Seq::<int>::empty()) == swapped(
            s,
            top,
            j,
        ));
    } else {
        let rest = draws.drop_first();
        assert(draws.push(j).drop_first() =~= rest.push(j));
        assert(draws.push(j)[0] == draws[0]);
        lemma_passes_push(swapped(s, top, draws[0]), top - 1, rest, j);
        assert((top - 1) - rest.len() == top - draws.len());
    }
}

/// Shuffles `candidate` in place with the Fisher–Yates algorithm: for each
/// index from the last down to 1, it picks an index below one more than it
/// and swaps the two elements.
///
/// The result is the input after the passes of the picks recorded by this
/// call, bounded `len`, `len - 1`, ... in that order; all of them down to
/// index 1 unless a fill failed, whose error is then returned as is.
pub fn fisher_yates<R: RandomSource>(candidate: &mut [u8], random: &mut Draws<R>) -> (r: Result<
    (),
    R::Error,
>)
    requires
        old(candidate)@.len() <= draw_range(),
    ensures
        final(candidate)@.len() == old(candidate)@.len(),
        final(candidate)@.to_multiset() == old(candidate)@.to_multiset(),
        extended(old(random).words@, final(random).words@),
        extended(old(random).picks@, final(random).picks@),
        ({
            let new = final(random).picks@.skip(old(random).picks@.len() as int);
            &&& shuffle_picks(new, old(candidate)@.len() as int)
            &&& (new.len() < old(candidate)@.len() || new.len() == 0)
            &&& final(candidate)@ == fisher_yates_passes(
                old(candidate)@,
                old(candidate)@.len() - 1,
                pick_indices(new),
            )
            &&& r is Ok ==> new.len() + 1 >= old(candidate)@.len()
        }),
        r is Ok ==> picks_read(
            final(random).words@.skip(old(random).words@.len() as int),
            final(random).picks@.skip(old(random).picks@.len() as int),
        ),
        r matches Err(e) ==> read_until_failure(
            final(random).words@.skip(old(random).words@.len() as int),
            final(random).picks@.skip(old(random).picks@.len() as int),
            e,
        ),
{
    let ghost original = candidate@;
    let ghost top = candidate@.len() - 1;
    let ghost p0 = random.picks@;
    let ghost w0 = random.words@.len() as int;
    proof {
        assert(random.words@.skip(w0) =~= Seq::<Result<u32, R::Error>>::empty());
        assert(random.picks@.skip(p0.len() as int) =~= Seq::<Pick>::empty());
        lemma_nothing_read::<R::Error>();
    }
    let mut index = candidate.len();
    proof {
        assert(random.picks@.skip(p0.len() as int) =~= Seq::<Pick>::empty());
        assert(pick_indices(Seq::<Pick>::empty()) =~= Seq::<int>::empty());
        assert(random.picks@.take(p0.len() as int) =~= p0);
        assert(random.words@.take(random.words@.len() as int) =~= random.words@);
    }
    while index > 1
        invariant
            index <= candidate@.len(),
            candidate@.len() == original.len(),
            original == old(candidate)@,
            top == original.len() - 1,
            candidate@.len() <= draw_range(),
            candidate@.to_multiset() == original.to_multiset(),
            p0 == old(random).picks@,
            extended(old(random).words@, random.words@),
            extended(p0, random.picks@),
            w0 == old(random).words@.len(),
            picks_read(random.words@.skip(w0), random.picks@.skip(p0.len() as int)),
            index > 0 ==> random.picks@.len() - p0.len() == original.len() - index,
            index == 0 ==> random.picks@.len() == p0.len() && original.len() == 0,
            shuffle_picks(random.picks@.skip(p0.len() as int), original.len() as int),
            candidate@ == fisher_yates_passes(
                original,
                top,
                pick_indices(random.picks@.skip(p0.len() as int)),
            ),
        decreases index,
    {
        index = index - 1;
        let ghost words_before = random.words@;
        let ghost picks_before = random.picks@;
        let swap = match next_index(index + 1, random) {
            Ok(swap) => swap,
            Err(error) => {
                proof {
                    lemma_extended_trans(old(random).words@, words_before, random.words@);
                    lemma_read_step(
                        w0,
                        p0.len() as int,
                        words_before,
                        random.words@,
                        picks_before,
                        random.picks@,
                        (index + 1) as usize,
                        Err::<usize, R::Error>(error),
                    );
                }
                return Err(error);
            },
        };
        let ghost before = candidate@;
        let first = candidate[index];
        let second = candidate[swap];
        candidate[index] = second;
        candidate[swap] = first;
        proof {
            lemma_swap_keeps_multiset(before, index as int, swap as int);
            assert(candidate@ =~= swapped(before, index as int, swap as int));
            lemma_extended_trans(old(random).words@, words_before, random.words@);
            lemma_read_step(
                w0,
                p0.len() as int,
                words_before,
                random.words@,
                picks_before,
                random.picks@,
                (index + 1) as usize,
                Ok::<usize, R::Error>(swap),
            );
            let pick = Pick { bound: (index + 1) as usize, index: swap };
            lemma_skip_push(picks_before, p0.len() as int, pick);
            let prev = picks_before.skip(p0.len() as int);
            let next = random.picks@.skip(p0.len() as int);
            assert(next == prev.push(pick));
            assert(pick_indices(next) =~= pick_indices(prev).push(swap as int));
            lemma_passes_push(original, top, pick_indices(prev), swap as int);
            assert(random.picks@.take(p0.len() as int) == p0);
            assert(shuffle_picks(next, original.len() as int)) by {
                assert forall|k: int| 0 <= k < next.len() implies (#[trigger] next[k]).bound
                    == original.len() - k && next[k].index < next[k].bound by {
                    if k < prev.len() {
                        assert(next[k] == prev[k]);
                    }
                }
            }
        }
    }
    Ok(())
}

proof fn lemma_swap_keeps_multiset(s: Seq<u8>, i: int, j: int)
    requires
        0 <= i < s.len(),
        0 <= j < s.len(),
    ensures
        s.update(i, s[j]).update(j, s[i]).to_multiset() == s.to_multiset(),
{
    broadcast use vstd::seq_lib::to_multiset_update;
    broadcast use vstd::multiset::group_multiset_properties;
    let t = s.update(i, s[j]);
    assert(t[j] == s[j]);
    assert(t.update(j, s[i]).to_multiset() == t.to_multiset().insert(s[i]).remove(s[j]));
    assert(t.to_multiset() == s.to_multiset().insert(s[j]).remove(s[i]));
    broadcast use vstd::multiset::group_multiset_axioms;
    broadcast use vstd::seq_lib::to_multiset_contains;
    let m = s.to_multiset();
    assert(s.contains(s[i]));
    assert(m.count(s[i]) > 0);
    assert forall|x: u8| #[trigger] m.insert(s[j]).remove(s[i]).insert(s[i]).remove(s[j]).count(x)
        == m.count(x) by {
        if x == s[i] && x == s[j] {
        } else if x == s[i] {
        } else if x == s[j] {
        } else {
        }
    }
    assert(m.insert(s[j]).remove(s[i]).insert(s[i]).remove(s[j]) =~= m);
}


/// `c` is one of the characters of `group`.
pub open spec fn char_in_group(group: Seq<u8>, c: char) -> bool {
    exists|i: int| 0 <= i < group.len() && #[trigger] group[i] as char == c
}

/// `c` is one of the characters of one of `groups`.
pub open spec fn char_from_groups(groups: Seq<Seq<u8>>, c: char) -> bool {
    exists|g: int| 0 <= g < groups.len() && #[trigger] char_in_group(groups[g], c)
}

/// Some character of `password` is one of the characters of `group`.
pub open spec fn group_represented(group: Seq<u8>, password: Seq<char>) -> bool {
    exists|k: int| 0 <= k < password.len() && #[trigger] char_in_group(group, password[k])
}

/// A password of `length` characters, each from one of `groups`, with at
/// least one character from every group.
pub open spec fn valid_password(password: Seq<char>, length: nat, groups: Seq<Seq<u8>>) -> bool {
    &&& password.len() == length
    &&& forall|k: int| 0 <= k < password.len() ==> char_from_groups(groups, #[trigger] password[k])
    &&& forall|g: int| 0 <= g < groups.len() ==> group_represented(#[trigger] groups[g], password)
}

/// Count and length lie in their accepted ranges.
pub open spec fn bounds_valid(count: usize, length: usize) -> bool {
    &&& MIN_COUNT <= count <= MAX_COUNT
    &&& MIN_LENGTH <= length <= MAX_LENGTH
}

/// `b` belongs to one of `groups`.
pub open spec fn in_some_group(groups: Seq<Seq<u8>>, b: u8) -> bool {
    exists|g: int| 0 <= g < groups.len() && #[trigger] groups[g].contains(b)
}

/// Every group is non-empty, ASCII and short, and there are at most four.
pub open spec fn groups_shape(groups: Seq<Seq<u8>>) -> bool {
    &&& groups.len() <= 4
    &&& forall|g: int| 0 <= g < groups.len() ==> 0 < #[trigger] groups[g].len() <= 26
    &&& forall|g: int, i: int|
        0 <= g < groups.len() && 0 <= i < groups[g].len() ==> #[trigger] groups[g][i] < 128
}

proof fn lemma_group_shape(chars: Seq<u8>, x: bool, witness: int)
    requires
        0 <= witness < chars.len() <= 26,
        !is_ambiguous(chars[witness]),
        forall|i: int| 0 <= i < chars.len() ==> chars[i] < 128,
    ensures
        0 < group_of(chars, x).len() <= 26,
        forall|i: int| 0 <= i < group_of(chars, x).len() ==> #[trigger] group_of(chars, x)[i] < 128,
{
    if x {
        let f = chars.filter(unambiguous());
        chars.lemma_filter_len(unambiguous());
        chars.lemma_filter_contains(unambiguous(), witness);
        assert forall|i: int| 0 <= i < f.len() implies #[trigger] f[i] < 128 by {
            assert(f.contains(f[i]));
            chars.lemma_filter_contains_rev(unambiguous(), f[i]);
        }
    }
}

/// The selected groups are non-empty ASCII groups, one per enabled option.
pub proof fn lemma_selected_groups_shape(options: GenerationOptions)
    ensures
        groups_shape(selected_groups(options)),
        selected_groups(options).len() > 0 <==> any_group(options),
{
    let x = options.exclude_ambiguous;
    lemma_group_shape(lowercase_chars(), x, 0);
    lemma_group_shape(uppercase_chars(), x, 0);
    lemma_group_shape(number_chars(), x, 2);
    lemma_group_shape(symbol_chars(), x, 0);
    let g1 = push_if(Seq::empty(), options.lowercase, group_of(lowercase_chars(), x));
    let g2 = push_if(g1, options.uppercase, group_of(uppercase_chars(), x));
    let g3 = push_if(g2, options.numbers, group_of(number_chars(), x));
    let g4 = push_if(g3, options.symbols, group_of(symbol_chars(), x));
    assert(groups_shape(g1));
    assert(groups_shape(g2));
    assert(groups_shape(g3));
    assert(groups_shape(g4));
}

/// With the lookalike filter on, no selected group holds a lookalike.
pub proof fn lemma_excluded_groups_have_no_lookalikes(options: GenerationOptions)
    requires
        options.exclude_ambiguous,
    ensures
        forall|g: int, i: int|
            0 <= g < selected_groups(options).len() && 0 <= i < selected_groups(options)[g].len()
                ==> !is_ambiguous(#[trigger] selected_groups(options)[g][i]),
{
    let x = options.exclude_ambiguous;
    assert forall|c: Seq<u8>, i: int|
        0 <= i < group_of(c, x).len() implies !is_ambiguous(#[trigger] group_of(c, x)[i]) by {
        c.lemma_filter_pred(unambiguous(), i);
    }
    let g1 = push_if(Seq::empty(), options.lowercase, group_of(lowercase_chars(), x));
    let g2 = push_if(g1, options.uppercase, group_of(uppercase_chars(), x));
    let g3 = push_if(g2, options.numbers, group_of(number_chars(), x));
    let g4 = push_if(g3, options.symbols, group_of(symbol_chars(), x));
    assert(forall|g: int, i: int|
        0 <= g < g1.len() && 0 <= i < g1[g].len() ==> !is_ambiguous(#[trigger] g1[g][i]));
    assert(forall|g: int, i: int|
        0 <= g < g2.len() && 0 <= i < g2[g].len() ==> !is_ambiguous(#[trigger] g2[g][i]));
    assert(forall|g: int, i: int|
        0 <= g < g3.len() && 0 <= i < g3[g].len() ==> !is_ambiguous(#[trigger] g3[g][i]));
}

/// One of the characters `I l 1 O 0 o 5 S 8 B`.
pub open spec fn is_lookalike(c: char) -> bool {
    c == 'I' || c == 'l' || c == '1' || c == 'O' || c == '0' || c == 'o' || c == '5' || c == 'S'
        || c == '8' || c == 'B'
}

/// With the lookalike filter on, no password of a valid batch holds a
/// lookalike character.
pub proof fn lemma_filtered_password_has_no_lookalikes(password: Seq<char>, length: nat, options: GenerationOptions)
    requires
        options.exclude_ambiguous,
        valid_password(password, length, selected_groups(options)),
    ensures
        forall|k: int| 0 <= k < password.len() ==> !is_lookalike(#[trigger] password[k]),
{
    lemma_excluded_groups_have_no_lookalikes(options);
    let groups = selected_groups(options);
    assert forall|k: int| 0 <= k < password.len() implies !is_lookalike(#[trigger] password[k]) by {
        assert(char_from_groups(groups, password[k]));
        let g = choose|g: int| 0 <= g < groups.len() && #[trigger] char_in_group(groups[g], password[k]);
        let i = choose|i: int| 0 <= i < groups[g].len() && #[trigger] groups[g][i] as char == password[k];
        let b = groups[g][i];
        assert(!is_ambiguous(b));
        assert(is_lookalike(b as char) ==> is_ambiguous(b));
    }
}

/// One of `a`..`z`.
pub open spec fn is_lowercase_letter(c: char) -> bool {
    'a' <= c && c <= 'z'
}

/// One of `A`..`Z`.
pub open spec fn is_uppercase_letter(c: char) -> bool {
    'A' <= c && c <= 'Z'
}

/// One of `0`..`9`.
pub open spec fn is_digit_char(c: char) -> bool {
    '0' <= c && c <= '9'
}

/// One of `! @ # $ % ^ & * _ - + = ?`.
pub open spec fn is_symbol_char(c: char) -> bool {
    c == '!' || c == '@' || c == '#' || c == '$' || c == '%' || c == '^' || c == '&' || c == '*'
        || c == '_' || c == '-' || c == '+' || c == '=' || c == '?'
}

/// Number of character classes that `options` switches on.
pub open spec fn enabled_count(options: GenerationOptions) -> int {
    (if options.lowercase { 1int } else { 0int }) + (if options.uppercase { 1int } else { 0int })
        + (if options.numbers { 1int } else { 0int }) + (if options.symbols { 1int } else { 0int })
}

/// Every member of `group_of(chars, x)` is one of `chars`.
proof fn lemma_group_keeps_class(chars: Seq<u8>, x: bool, class: spec_fn(char) -> bool)
    requires
        forall|j: int| 0 <= j < chars.len() ==> class(#[trigger] chars[j] as char),
    ensures
        forall|i: int| 0 <= i < group_of(chars, x).len() ==> class(#[trigger] group_of(chars, x)[i] as char),
{
    if x {
        let f = chars.filter(unambiguous());
        assert forall|i: int| 0 <= i < f.len() implies class(#[trigger] f[i] as char) by {
            assert(f.contains(f[i]));
            chars.lemma_filter_contains_rev(unambiguous(), f[i]);
        }
    }
}

/// A represented group whose members all lie in `class` puts a character of
/// `class` into the password.
proof fn lemma_class_appears(group: Seq<u8>, password: Seq<char>, class: spec_fn(char) -> bool)
    requires
        group_represented(group, password),
        forall|i: int| 0 <= i < group.len() ==> class(#[trigger] group[i] as char),
    ensures
        exists|k: int| 0 <= k < password.len() && class(#[trigger] password[k]),
{
    let k = choose|k: int| 0 <= k < password.len() && #[trigger] char_in_group(group, password[k]);
    let i = choose|i: int| 0 <= i < group.len() && #[trigger] group[i] as char == password[k];
    assert(class(group[i] as char));
}

/// There is one selected group per enabled option: the symbols group, say,
/// is among them only when symbols are switched on.
pub proof fn lemma_one_group_per_enabled_option(options: GenerationOptions)
    ensures
        selected_groups(options).len() == enabled_count(options),
{
}

/// `c` lies in a character class that `options` switches on.
pub open spec fn class_enabled(options: GenerationOptions, c: char) -> bool {
    ||| options.lowercase && is_lowercase_letter(c)
    ||| options.uppercase && is_uppercase_letter(c)
    ||| options.numbers && is_digit_char(c)
    ||| options.symbols && is_symbol_char(c)
}

proof fn lemma_class_groups(x: bool)
    ensures
        forall|i: int| 0 <= i < group_of(lowercase_chars(), x).len()
            ==> is_lowercase_letter(#[trigger] group_of(lowercase_chars(), x)[i] as char),
        forall|i: int| 0 <= i < group_of(uppercase_chars(), x).len()
            ==> is_uppercase_letter(#[trigger] group_of(uppercase_chars(), x)[i] as char),
        forall|i: int| 0 <= i < group_of(number_chars(), x).len()
            ==> is_digit_char(#[trigger] group_of(number_chars(), x)[i] as char),
        forall|i: int| 0 <= i < group_of(symbol_chars(), x).len()
            ==> is_symbol_char(#[trigger] group_of(symbol_chars(), x)[i] as char),
{
    lemma_group_keeps_class(lowercase_chars(), x, |c: char| is_lowercase_letter(c));
    lemma_group_keeps_class(uppercase_chars(), x, |c: char| is_uppercase_letter(c));
    lemma_group_keeps_class(number_chars(), x, |c: char| is_digit_char(c));
    assert forall|j: int| 0 <= j < symbol_chars().len() implies is_symbol_char(
        #[trigger] symbol_chars()[j] as char,
    ) by {
        assert(symbol_chars()[j] == symbol_chars()[j]);
    }
    lemma_group_keeps_class(symbol_chars(), x, |c: char| is_symbol_char(c));
}

proof fn lemma_selected_members_enabled(options: GenerationOptions)
    ensures
        forall|g: int, i: int|
            0 <= g < selected_groups(options).len() && 0 <= i < selected_groups(options)[g].len()
                ==> class_enabled(options, #[trigger] selected_groups(options)[g][i] as char),
{
    let x = options.exclude_ambiguous;
    lemma_class_groups(x);
    let g1 = push_if(Seq::empty(), options.lowercase, group_of(lowercase_chars(), x));
    let g2 = push_if(g1, options.uppercase, group_of(uppercase_chars(), x));
    let g3 = push_if(g2, options.numbers, group_of(number_chars(), x));
    let g4 = push_if(g3, options.symbols, group_of(symbol_chars(), x));
    assert(forall|g: int, i: int|
        0 <= g < g1.len() && 0 <= i < g1[g].len() ==> class_enabled(options, #[trigger] g1[g][i] as char));
    assert(forall|g: int, i: int|
        0 <= g < g2.len() && 0 <= i < g2[g].len() ==> class_enabled(options, #[trigger] g2[g][i] as char));
    assert(forall|g: int, i: int|
        0 <= g < g3.len() && 0 <= i < g3[g].len() ==> class_enabled(options, #[trigger] g3[g][i] as char));
    assert(forall|g: int, i: int|
        0 <= g < g4.len() && 0 <= i < g4[g].len() ==> class_enabled(options, #[trigger] g4[g][i] as char));
}

proof fn lemma_enabled_classes_appear(password: Seq<char>, length: nat, options: GenerationOptions)
    requires
        valid_password(password, length, selected_groups(options)),
    ensures
        options.lowercase ==> exists|k: int| 0 <= k < password.len() && is_lowercase_letter(#[trigger] password[k]),
        options.uppercase ==> exists|k: int| 0 <= k < password.len() && is_uppercase_letter(#[trigger] password[k]),
        options.numbers ==> exists|k: int| 0 <= k < password.len() && is_digit_char(#[trigger] password[k]),
        options.symbols ==> exists|k: int| 0 <= k < password.len() && is_symbol_char(#[trigger] password[k]),
{
    let x = options.exclude_ambiguous;
    lemma_class_groups(x);
    let g1 = push_if(Seq::empty(), options.lowercase, group_of(lowercase_chars(), x));
    let g2 = push_if(g1, options.uppercase, group_of(uppercase_chars(), x));
    let g3 = push_if(g2, options.numbers, group_of(number_chars(), x));
    let g4 = push_if(g3, options.symbols, group_of(symbol_chars(), x));
    assert(g4 == selected_groups(options));
    if options.lowercase {
        assert(group_represented(g4[0], password));
        lemma_class_appears(g4[0], password, |c: char| is_lowercase_letter(c));
    }
    if options.uppercase {
        let at = g1.len() as int;
        assert(group_represented(g4[at], password));
        lemma_class_appears(g4[at], password, |c: char| is_uppercase_letter(c));
    }
    if options.numbers {
        let at = g2.len() as int;
        assert(group_represented(g4[at], password));
        lemma_class_appears(g4[at], password, |c: char| is_digit_char(c));
    }
    if options.symbols {
        let at = g3.len() as int;
        assert(group_represented(g4[at], password));
        lemma_class_appears(g4[at], password, |c: char| is_symbol_char(c));
    }
}

/// Every character of a valid password belongs to a class whose option is
/// on: a letter `a`..`z` only with lowercase on, `A`..`Z` only with
/// uppercase on, `0`..`9` only with numbers on, one of `!@#$%^&*_-+=?` only
/// with symbols on, and nothing else. Every class that is on appears at
/// least once.
pub proof fn lemma_password_classes_follow_options(password: Seq<char>, length: nat, options: GenerationOptions)
    requires
        valid_password(password, length, selected_groups(options)),
    ensures
        forall|k: int| 0 <= k < password.len() ==> {
            let c = #[trigger] password[k];
            &&& is_lowercase_letter(c) || is_uppercase_letter(c) || is_digit_char(c) || is_symbol_char(c)
            &&& is_lowercase_letter(c) ==> options.lowercase
            &&& is_uppercase_letter(c) ==> options.uppercase
            &&& is_digit_char(c) ==> options.numbers
            &&& is_symbol_char(c) ==> options.symbols
        },
        options.lowercase ==> exists|k: int| 0 <= k < password.len() && is_lowercase_letter(#[trigger] password[k]),
        options.uppercase ==> exists|k: int| 0 <= k < password.len() && is_uppercase_letter(#[trigger] password[k]),
        options.numbers ==> exists|k: int| 0 <= k < password.len() && is_digit_char(#[trigger] password[k]),
        options.symbols ==> exists|k: int| 0 <= k < password.len() && is_symbol_char(#[trigger] password[k]),
{
    let groups = selected_groups(options);
    lemma_selected_members_enabled(options);
    assert forall|k: int| 0 <= k < password.len() implies class_enabled(options, #[trigger] password[k]) by {
        assert(char_from_groups(groups, password[k]));
        let g = choose|g: int| 0 <= g < groups.len() && #[trigger] char_in_group(groups[g], password[k]);
        let i = choose|i: int| 0 <= i < groups[g].len() && #[trigger] groups[g][i] as char == password[k];
        assert(class_enabled(options, groups[g][i] as char));
    }
    lemma_enabled_classes_appear(password, length, options);
}

fn build_pool(groups: &Vec<Vec<u8>>) -> (pool: Vec<u8>)
    requires
        groups_shape(groups.deep_view()),
    ensures
        pool@ == groups.deep_view().flatten(),
        groups@.len() > 0 ==> pool@.len() > 0,
        pool@.len() <= 104,
        forall|k: int| 0 <= k < pool@.len() ==> in_some_group(groups.deep_view(), #[trigger] pool@[k]),
{
    let ghost gs = groups.deep_view();
    let mut pool: Vec<u8> = Vec::new();
    let mut g: usize = 0;
    assert(gs.take(0).flatten() =~= Seq::<u8>::empty());
    while g < groups.len()
        invariant
            gs == groups.deep_view(),
            groups_shape(gs),
            g <= groups@.len(),
            pool@ == gs.take(g as int).flatten(),
            g > 0 ==> pool@.len() > 0,
            pool@.len() <= 26 * g,
            forall|k: int| 0 <= k < pool@.len() ==> in_some_group(gs, #[trigger] pool@[k]),
        decreases groups@.len() - g,
    {
        let group = &groups[g];
        assert(group@ == gs[g as int]);
        let ghost start = pool@;
        let mut i: usize = 0;
        while i < group.len()
            invariant
                gs == groups.deep_view(),
                groups_shape(gs),
                g < groups@.len(),
                group@ == gs[g as int],
                i <= group@.len(),
                start == gs.take(g as int).flatten(),
                pool@ == start + group@.take(i as int),
                start.len() <= 26 * g,
                forall|k: int| 0 <= k < pool@.len() ==> in_some_group(gs, #[trigger] pool@[k]),
            decreases group@.len() - i,
        {
            let b = group[i];
            assert(gs[g as int].contains(b));
            pool.push(b);
            i = i + 1;
            assert(pool@ =~= start + group@.take(i as int));
        }
        assert(group@.take(group@.len() as int) =~= group@);
        proof {
            gs.take(g as int).lemma_flatten_push(gs[g as int]);
            assert(gs.take(g + 1) =~= gs.take(g as int).push(gs[g as int]));
        }
        g = g + 1;
    }
    assert(gs.take(groups@.len() as int) =~= gs);
    pool
}

proof fn lemma_shuffled_password(before: Seq<u8>, after: Seq<u8>, groups: Seq<Seq<u8>>)
    requires
        before.len() == after.len(),
        before.to_multiset() == after.to_multiset(),
        groups.len() <= before.len(),
        forall|g: int| 0 <= g < groups.len() ==> #[trigger] groups[g].contains(before[g]),
        forall|k: int| 0 <= k < before.len() ==> in_some_group(groups, #[trigger] before[k]),
    ensures
        valid_password(as_chars(after), before.len(), groups),
{
    broadcast use vstd::seq_lib::to_multiset_contains;
    let pw = as_chars(after);
    assert forall|k: int| 0 <= k < pw.len() implies char_from_groups(groups, #[trigger] pw[k]) by {
        assert(after.contains(after[k]));
        assert(after.to_multiset().count(after[k]) > 0);
        assert(before.contains(after[k]));
        let j = choose|j: int| 0 <= j < before.len() && before[j] == after[k];
        assert(in_some_group(groups, before[j]));
        let g = choose|g: int| 0 <= g < groups.len() && #[trigger] groups[g].contains(before[j]);
        let i = choose|i: int| 0 <= i < groups[g].len() && groups[g][i] == before[j];
        assert(groups[g][i] as char == pw[k]);
        assert(char_in_group(groups[g], pw[k]));
    }
    assert forall|g: int| 0 <= g < groups.len() implies group_represented(#[trigger] groups[g], pw) by {
        assert(groups[g].contains(before[g]));
        assert(before.contains(before[g]));
        assert(before.to_multiset().count(before[g]) > 0);
        assert(after.contains(before[g]));
        let k = choose|k: int| 0 <= k < after.len() && after[k] == before[g];
        let i = choose|i: int| 0 <= i < groups[g].len() && groups[g][i] == before[g];
        assert(groups[g][i] as char == pw[k]);
        assert(char_in_group(groups[g], pw[k]));
    }
    assert(pw.len() == before.len());
}

/// The exclusive bound of the `k`-th pick made for one password of `length`
/// characters: one pick in each group, then picks in the pool, then the
/// shuffle's picks bounded `length`, `length - 1`, ..., 2.
pub open spec fn pick_bound(groups: Seq<Seq<u8>>, pool_len: int, length: int, k: int) -> int {
    if k < groups.len() {
        groups[k].len() as int
    } else if k < length {
        pool_len
    } else {
        length - (k - length)
    }
}

/// `picks` are the first `n` picks of one password, each below its bound.
pub open spec fn picks_bounded(picks: Seq<Pick>, groups: Seq<Seq<u8>>, pool_len: int, length: int, n: int) -> bool {
    &&& picks.len() == n
    &&& forall|k: int|
        0 <= k < n ==> (#[trigger] picks[k]).bound == pick_bound(groups, pool_len, length, k)
            && picks[k].index < picks[k].bound
}

/// The characters before shuffling: position `k` holds the picked character
/// of group `k` for each group, and a picked pool character after them.
pub open spec fn unshuffled(groups: Seq<Seq<u8>>, pool: Seq<u8>, length: int, indices: Seq<int>) -> Seq<u8> {
    Seq::new(
        length as nat,
        |k: int|
            if k < groups.len() {
                groups[k][indices[k]]
            } else {
                pool[indices[k]]
            },
    )
}

/// The password that the picked `indices` make: the unshuffled characters
/// after the Fisher–Yates passes of the picks that follow them.
pub open spec fn password_from(groups: Seq<Seq<u8>>, pool: Seq<u8>, length: int, indices: Seq<int>) -> Seq<u8> {
    fisher_yates_passes(unshuffled(groups, pool, length, indices), length - 1, indices.skip(length))
}

fn fill_candidate<R: RandomSource>(
    length: usize,
    groups: &Vec<Vec<u8>>,
    pool: &Vec<u8>,
    random: &mut Draws<R>,
) -> (candidate: Result<Vec<u8>, R::Error>)
    requires
        groups_shape(groups.deep_view()),
        groups@.len() <= length <= MAX_LENGTH,
        0 < pool@.len() <= 104,
        forall|k: int| 0 <= k < pool@.len() ==> in_some_group(groups.deep_view(), #[trigger] pool@[k]),
    ensures
        extended(old(random).words@, final(random).words@),
        extended(old(random).picks@, final(random).picks@),
        candidate matches Ok(c) ==> {
            let new = final(random).picks@.skip(old(random).picks@.len() as int);
            &&& picks_bounded(new, groups.deep_view(), pool@.len() as int, length as int, length as int)
            &&& c@ == unshuffled(groups.deep_view(), pool@, length as int, pick_indices(new))
            &&& forall|g: int| 0 <= g < groups@.len() ==> #[trigger] groups.deep_view()[g].contains(c@[g])
            &&& forall|k: int| 0 <= k < c@.len() ==> in_some_group(groups.deep_view(), #[trigger] c@[k])
        },
        candidate is Ok ==> picks_read(
            final(random).words@.skip(old(random).words@.len() as int),
            final(random).picks@.skip(old(random).picks@.len() as int),
        ),
        candidate matches Err(e) ==> read_until_failure(
            final(random).words@.skip(old(random).words@.len() as int),
            final(random).picks@.skip(old(random).picks@.len() as int),
            e,
        ),
{
    let ghost gs = groups.deep_view();
    let ghost p0 = random.picks@;
    let ghost w0 = random.words@.len() as int;
    proof {
        assert(random.words@.skip(w0) =~= Seq::<Result<u32, R::Error>>::empty());
        assert(random.picks@.skip(p0.len() as int) =~= Seq::<Pick>::empty());
        lemma_nothing_read::<R::Error>();
    }
    let mut candidate: Vec<u8> = vec![0u8; length];
    let mut position: usize = 0;
    proof {
        assert(random.picks@.skip(p0.len() as int) =~= Seq::<Pick>::empty());
        assert(random.picks@.take(p0.len() as int) =~= p0);
        assert(random.words@.take(random.words@.len() as int) =~= random.words@);
    }
    while position < length
        invariant
            gs == groups.deep_view(),
            groups_shape(gs),
            groups@.len() <= length <= MAX_LENGTH,
            0 < pool@.len() <= 104,
            forall|k: int| 0 <= k < pool@.len() ==> in_some_group(gs, #[trigger] pool@[k]),
            candidate@.len() == length,
            position <= length,
            p0 == old(random).picks@,
            extended(old(random).words@, random.words@),
            extended(p0, random.picks@),
            w0 == old(random).words@.len(),
            picks_read(random.words@.skip(w0), random.picks@.skip(p0.len() as int)),
            picks_bounded(random.picks@.skip(p0.len() as int), gs, pool@.len() as int, length as int, position as int),
            forall|k: int|
                0 <= k < position ==> #[trigger] candidate@[k] == (if k < gs.len() {
                    gs[k][pick_indices(random.picks@.skip(p0.len() as int))[k]]
                } else {
                    pool@[pick_indices(random.picks@.skip(p0.len() as int))[k]]
                }),
            forall|g: int| 0 <= g < position && g < gs.len() ==> #[trigger] gs[g].contains(candidate@[g]),
            forall|k: int| 0 <= k < position ==> in_some_group(gs, #[trigger] candidate@[k]),
        decreases length - position,
    {
        let ghost words_before = random.words@;
        let ghost picks_before = random.picks@;
        let in_group = position < groups.len();
        proof {
            if in_group {
                assert(gs[position as int] == groups@[position as int]@);
            }
        }
        let bound = if in_group {
            groups[position].len()
        } else {
            pool.len()
        };
        let index = match next_index(bound, random) {
            Ok(index) => index,
            Err(error) => {
                proof {
                    lemma_extended_trans(old(random).words@, words_before, random.words@);
                    let new = random.words@.skip(words_before.len() as int);
                    assert(new.last() == random.words@.last());
                    lemma_read_step(
                        w0,
                        p0.len() as int,
                        words_before,
                        random.words@,
                        picks_before,
                        random.picks@,
                        bound,
                        Err::<usize, R::Error>(error),
                    );
                }
                wipe_bytes(&mut candidate);
                return Err(error);
            },
        };
        let c = if in_group {
            groups[position][index]
        } else {
            pool[index]
        };
        proof {
            lemma_extended_trans(old(random).words@, words_before, random.words@);
            lemma_read_step(
                w0,
                p0.len() as int,
                words_before,
                random.words@,
                picks_before,
                random.picks@,
                bound,
                Ok::<usize, R::Error>(index),
            );
            let pick = Pick { bound, index };
            lemma_skip_push(picks_before, p0.len() as int, pick);
            let prev = picks_before.skip(p0.len() as int);
            let next = random.picks@.skip(p0.len() as int);
            assert(next == prev.push(pick));
            assert(pick_indices(next) =~= pick_indices(prev).push(index as int));
            assert(random.picks@.take(p0.len() as int) == p0);
            assert forall|k: int| 0 <= k < position + 1 implies (#[trigger] next[k]).bound
                == pick_bound(gs, pool@.len() as int, length as int, k) && next[k].index
                < next[k].bound by {
                if k < position {
                    assert(next[k] == prev[k]);
                }
            }
            if in_group {
                assert(gs[position as int] == groups@[position as int]@);
                assert(gs[position as int].contains(c));
            } else {
                assert(in_some_group(gs, pool@[index as int]));
            }
        }
        candidate.set(position, c);
        position = position + 1;
    }
    proof {
        let new = random.picks@.skip(p0.len() as int);
        assert(candidate@ =~= unshuffled(gs, pool@, length as int, pick_indices(new)));
    }
    Ok(candidate)
}

proof fn lemma_password_runs(
    gs: Seq<Seq<u8>>,
    pool: Seq<u8>,
    length: int,
    p0: Seq<Pick>,
    p1: Seq<Pick>,
    p2: Seq<Pick>,
    before: Seq<u8>,
    after: Seq<u8>,
)
    requires
        1 <= length,
        gs.len() <= length,
        extended(p0, p1),
        extended(p1, p2),
        picks_bounded(p1.skip(p0.len() as int), gs, pool.len() as int, length, length),
        before == unshuffled(gs, pool, length, pick_indices(p1.skip(p0.len() as int))),
        shuffle_picks(p2.skip(p1.len() as int), length),
        p2.skip(p1.len() as int).len() + 1 == length,
        after == fisher_yates_passes(before, length - 1, pick_indices(p2.skip(p1.len() as int))),
    ensures
        picks_bounded(p2.skip(p0.len() as int), gs, pool.len() as int, length, 2 * length - 1),
        after == password_from(gs, pool, length, pick_indices(p2.skip(p0.len() as int))),
{
    let first = p1.skip(p0.len() as int);
    let second = p2.skip(p1.len() as int);
    let all = p2.skip(p0.len() as int);
    assert(p2.take(p0.len() as int) =~= p1.take(p0.len() as int));
    assert(all =~= first + second);
    assert(pick_indices(all).skip(length) =~= pick_indices(second));
    assert(unshuffled(gs, pool, length, pick_indices(all)) =~= unshuffled(
        gs,
        pool,
        length,
        pick_indices(first),
    ));
    assert forall|k: int| 0 <= k < 2 * length - 1 implies (#[trigger] all[k]).bound == pick_bound(
        gs,
        pool.len() as int,
        length,
        k,
    ) && all[k].index < all[k].bound by {
        if k < length {
            assert(all[k] == first[k]);
        } else {
            assert(all[k] == second[k - length]);
        }
    }
}

proof fn lemma_shuffled_ascii(before: Seq<u8>, after: Seq<u8>, gs: Seq<Seq<u8>>)
    requires
        groups_shape(gs),
        before.len() == after.len(),
        before.to_multiset() == after.to_multiset(),
        gs.len() <= before.len(),
        forall|g: int| 0 <= g < gs.len() ==> #[trigger] gs[g].contains(before[g]),
        forall|k: int| 0 <= k < before.len() ==> in_some_group(gs, #[trigger] before[k]),
    ensures
        valid_password(as_chars(after), before.len(), gs),
        forall|k: int| 0 <= k < after.len() ==> #[trigger] after[k] < 128,
{
    lemma_shuffled_password(before, after, gs);
    assert forall|k: int| 0 <= k < after.len() implies #[trigger] after[k] < 128 by {
        broadcast use vstd::seq_lib::to_multiset_contains;
        assert(after.contains(after[k]));
        assert(before.to_multiset().count(after[k]) > 0);
        assert(before.contains(after[k]));
        let j = choose|j: int| 0 <= j < before.len() && before[j] == after[k];
        assert(in_some_group(gs, before[j]));
        let g = choose|g: int| 0 <= g < gs.len() && #[trigger] gs[g].contains(before[j]);
        let i = choose|i: int| 0 <= i < gs[g].len() && gs[g][i] == before[j];
        assert(gs[g][i] < 128);
    }
}

fn generate_one<R: RandomSource>(
    length: usize,
    groups: &Vec<Vec<u8>>,
    pool: &Vec<u8>,
    random: &mut Draws<R>,
) -> (password: Result<String, R::Error>)
    requires
        groups_shape(groups.deep_view()),
        1 <= length,
        groups@.len() <= length <= MAX_LENGTH,
        0 < pool@.len() <= 104,
        forall|k: int| 0 <= k < pool@.len() ==> in_some_group(groups.deep_view(), #[trigger] pool@[k]),
    ensures
        extended(old(random).words@, final(random).words@),
        extended(old(random).picks@, final(random).picks@),
        password matches Ok(p) ==> {
            let new = final(random).picks@.skip(old(random).picks@.len() as int);
            &&& valid_password(p@, length as nat, groups.deep_view())
            &&& picks_bounded(
                new,
                groups.deep_view(),
                pool@.len() as int,
                length as int,
                2 * length - 1,
            )
            &&& p@ == as_chars(password_from(groups.deep_view(), pool@, length as int, pick_indices(new)))
        },
        password is Ok ==> picks_read(
            final(random).words@.skip(old(random).words@.len() as int),
            final(random).picks@.skip(old(random).picks@.len() as int),
        ),
        password matches Err(e) ==> read_until_failure(
            final(random).words@.skip(old(random).words@.len() as int),
            final(random).picks@.skip(old(random).picks@.len() as int),
            e,
        ),
{
    let ghost gs = groups.deep_view();
    let ghost p0 = random.picks@;
    let mut candidate = match fill_candidate(length, groups, pool, random) {
        Ok(candidate) => candidate,
        Err(error) => return Err(error),
    };
    let ghost p1 = random.picks@;
    let ghost w1 = random.words@;
    let ghost before = candidate@;
    match fisher_yates(candidate.as_mut_slice(), random) {
        Ok(()) => {},
        Err(error) => {
            proof {
                lemma_extended_trans(old(random).words@, w1, random.words@);
                lemma_extended_trans(p0, p1, random.picks@);
                lemma_runs_join(
                    old(random).words@,
                    w1,
                    random.words@,
                    p0,
                    p1,
                    random.picks@,
                    Some(error),
                );
            }
            wipe_bytes(&mut candidate);
            return Err(error);
        },
    }
    proof {
        lemma_extended_trans(old(random).words@, w1, random.words@);
        lemma_extended_trans(p0, p1, random.picks@);
        lemma_password_runs(gs, pool@, length as int, p0, p1, random.picks@, before, candidate@);
        lemma_runs_join(
            old(random).words@,
            w1,
            random.words@,
            p0,
            p1,
            random.picks@,
            None::<R::Error>,
        );
        lemma_shuffled_ascii(before, candidate@, gs);
    }
    let text = ascii_to_string(candidate.clone());
    wipe_bytes(&mut candidate);
    Ok(text)
}


/// Why a batch was refused, with the random source's own error type.
#[derive(Debug, Eq, PartialEq)]
pub enum InternalError<E> {
    CountOutOfRange { count: usize },
    LengthOutOfRange { length: usize },
    NoCharacterGroups,
    Entropy(E),
}

/// Why a batch drawn from operating-system entropy was refused.
#[derive(Debug)]
pub enum GenerateError {
    CountOutOfRange { count: usize },
    LengthOutOfRange { length: usize },
    NoCharacterGroups,
    Entropy(getrandom::Error),
}

/// What a batch request yields, for every outcome of the random source: the
/// first failed check in the order count, length, groups; otherwise either
/// the source's failure or `count` valid passwords over the selected groups.
pub open spec fn batch_outcome<E>(
    count: usize,
    length: usize,
    options: GenerationOptions,
    result: Result<Vec<String>, InternalError<E>>,
) -> bool {
    match result {
        Ok(passwords) => {
            &&& bounds_valid(count, length)
            &&& any_group(options)
            &&& passwords@.len() == count
            &&& forall|i: int|
                0 <= i < passwords@.len() ==> valid_password(
                    #[trigger] passwords@[i]@,
                    length as nat,
                    selected_groups(options),
                )
        },
        Err(InternalError::CountOutOfRange { count: c }) => {
            &&& c == count
            &&& !(MIN_COUNT <= count <= MAX_COUNT)
        },
        Err(InternalError::LengthOutOfRange { length: l }) => {
            &&& l == length
            &&& MIN_COUNT <= count <= MAX_COUNT
            &&& !(MIN_LENGTH <= length <= MAX_LENGTH)
        },
        Err(InternalError::NoCharacterGroups) => {
            &&& bounds_valid(count, length)
            &&& !any_group(options)
        },
        Err(InternalError::Entropy(_)) => {
            &&& bounds_valid(count, length)
            &&& any_group(options)
        },
    }
}

/// Overwrites and empties every string of `passwords`.
pub fn zeroize_strings(passwords: &mut Vec<String>)
    ensures
        final(passwords)@.len() == old(passwords)@.len(),
        forall|i: int| 0 <= i < final(passwords)@.len() ==> (#[trigger] final(passwords)@[i])@.len() == 0,
{
    let mut i: usize = 0;
    while i < passwords.len()
        invariant
            i <= passwords@.len(),
            passwords@.len() == old(passwords)@.len(),
            forall|k: int| 0 <= k < i ==> (#[trigger] passwords@[k])@.len() == 0,
        decreases passwords@.len() - i,
    {
        let mut taken = String::new();
        passwords.set_and_swap(i, &mut taken);
        wipe_string(&mut taken);
        passwords.set(i, taken);
        i = i + 1;
    }
}

proof fn lemma_batch_step(
    passwords: Seq<Seq<char>>,
    groups: Seq<Seq<u8>>,
    length: int,
    p0: Seq<Pick>,
    p1: Seq<Pick>,
    p2: Seq<Pick>,
    password: Seq<char>,
)
    requires
        1 <= length,
        extended(p0, p1),
        extended(p1, p2),
        batch_from_picks(passwords, groups, length, p1.skip(p0.len() as int)),
        picks_bounded(
            p2.skip(p1.len() as int),
            groups,
            groups.flatten().len() as int,
            length,
            2 * length - 1,
        ),
        password == as_chars(
            password_from(groups, groups.flatten(), length, pick_indices(p2.skip(p1.len() as int))),
        ),
    ensures
        extended(p0, p2),
        batch_from_picks(passwords.push(password), groups, length, p2.skip(p0.len() as int)),
{
    lemma_extended_trans(p0, p1, p2);
    let run = p2.skip(p1.len() as int);
    let prev = p1.skip(p0.len() as int);
    assert(p2.take(p0.len() as int) =~= p1.take(p0.len() as int));
    assert(p2.skip(p0.len() as int) =~= prev + run);
    lemma_batch_push(passwords, groups, length, prev, password, run);
}

/// The contents of some strings.
pub open spec fn string_views(strings: Seq<String>) -> Seq<Seq<char>> {
    strings.map_values(|s: String| s@)
}

/// `picks` are exactly those that made `passwords`: one run of
/// `2 * length - 1` picks per password, in order, each run bounded as
/// `picks_bounded` says and making its password by `password_from` over the
/// groups and their pooled characters.
#[verifier::opaque]
pub open spec fn batch_from_picks(
    passwords: Seq<Seq<char>>,
    groups: Seq<Seq<u8>>,
    length: int,
    picks: Seq<Pick>,
) -> bool
    decreases passwords.len(),
{
    if passwords.len() == 0 {
        picks.len() == 0
    } else {
        let m = 2 * length - 1;
        &&& 0 <= m <= picks.len()
        &&& picks_bounded(picks.take(m), groups, groups.flatten().len() as int, length, m)
        &&& passwords[0] == as_chars(
            password_from(groups, groups.flatten(), length, pick_indices(picks.take(m))),
        )
        &&& batch_from_picks(passwords.drop_first(), groups, length, picks.skip(m))
    }
}

proof fn lemma_batch_push(
    passwords: Seq<Seq<char>>,
    groups: Seq<Seq<u8>>,
    length: int,
    picks: Seq<Pick>,
    password: Seq<char>,
    run: Seq<Pick>,
)
    requires
        1 <= length,
        batch_from_picks(passwords, groups, length, picks),
        picks_bounded(run, groups, groups.flatten().len() as int, length, 2 * length - 1),
        password == as_chars(password_from(groups, groups.flatten(), length, pick_indices(run))),
    ensures
        batch_from_picks(passwords.push(password), groups, length, picks + run),
    decreases passwords.len(),
{
    reveal_with_fuel(batch_from_picks, 2);
    let m = 2 * length - 1;
    if passwords.len() == 0 {
        assert((picks + run) =~= run);
        assert(run.take(m) =~= run);
        assert(run.skip(m) =~= Seq::<Pick>::empty());
        assert(passwords.push(password).drop_first() =~= Seq::<Seq<char>>::empty());
        assert(passwords.push(password)[0] == password);
    } else {
        assert((picks + run).take(m) =~= picks.take(m));
        assert((picks + run).skip(m) =~= picks.skip(m) + run);
        assert(passwords.push(password).drop_first() =~= passwords.drop_first().push(password));
        assert(passwords.push(password)[0] == passwords[0]);
        lemma_batch_push(passwords.drop_first(), groups, length, picks.skip(m), password, run);
    }
}

/// Generates `count` passwords of `length` characters from `random`.
///
/// Count, length and groups are checked before any byte is drawn: when one
/// check fails the source is left untouched. Each password holds at least one
/// character of every enabled group and only characters of enabled groups.
/// The passwords are exactly those that the picks recorded in `random`
/// make (`batch_from_picks`). A failed draw is returned as is, after the
/// passwords made so far are wiped; no other source stands in for it.
pub fn generate_passwords_with_source<R: RandomSource>(
    count: usize,
    length: usize,
    options: GenerationOptions,
    random: &mut Draws<R>,
) -> (result: Result<Vec<String>, InternalError<R::Error>>)
    ensures
        batch_outcome(count, length, options, result),
        !(bounds_valid(count, length) && any_group(options)) ==> *final(random) == *old(random),
        extended(old(random).words@, final(random).words@),
        extended(old(random).picks@, final(random).picks@),
        result matches Ok(passwords) ==> batch_from_picks(
            string_views(passwords@),
            selected_groups(options),
            length as int,
            final(random).picks@.skip(old(random).picks@.len() as int),
        ),
        result is Ok ==> picks_read(
            final(random).words@.skip(old(random).words@.len() as int),
            final(random).picks@.skip(old(random).picks@.len() as int),
        ),
        result matches Err(InternalError::Entropy(e)) ==> read_until_failure(
            final(random).words@.skip(old(random).words@.len() as int),
            final(random).picks@.skip(old(random).picks@.len() as int),
            e,
        ),
{
    proof {
        assert(random.words@.take(random.words@.len() as int) =~= random.words@);
        assert(random.picks@.take(random.picks@.len() as int) =~= random.picks@);
    }
    if !(MIN_COUNT <= count && count <= MAX_COUNT) {
        return Err(InternalError::CountOutOfRange { count });
    }
    if !(MIN_LENGTH <= length && length <= MAX_LENGTH) {
        return Err(InternalError::LengthOutOfRange { length });
    }
    let groups = build_groups(options);
    proof {
        lemma_selected_groups_shape(options);
    }
    if groups.len() == 0 {
        return Err(InternalError::NoCharacterGroups);
    }
    let pool = build_pool(&groups);
    let ghost gs = groups.deep_view();
    let ghost p0 = random.picks@;
    let ghost w0 = random.words@;
    let mut passwords: Vec<String> = Vec::with_capacity(count);
    let mut made: usize = 0;
    proof {
        assert(random.picks@.skip(p0.len() as int) =~= Seq::<Pick>::empty());
        assert(string_views(passwords@) =~= Seq::<Seq<char>>::empty());
        assert(random.words@.skip(w0.len() as int) =~= Seq::<Result<u32, R::Error>>::empty());
        lemma_nothing_read::<R::Error>();
        reveal_with_fuel(batch_from_picks, 1);
    }
    while made < count
        invariant
            gs == groups.deep_view(),
            gs == selected_groups(options),
            pool@ == gs.flatten(),
            groups_shape(gs),
            0 < groups@.len() <= 4,
            bounds_valid(count, length),
            any_group(options),
            0 < pool@.len() <= 104,
            forall|k: int| 0 <= k < pool@.len() ==> in_some_group(gs, #[trigger] pool@[k]),
            made <= count,
            passwords@.len() == made,
            forall|i: int| 0 <= i < passwords@.len() ==> valid_password(
                #[trigger] passwords@[i]@,
                length as nat,
                gs,
            ),
            p0 == old(random).picks@,
            extended(old(random).words@, random.words@),
            extended(p0, random.picks@),
            w0 == old(random).words@,
            picks_read(random.words@.skip(w0.len() as int), random.picks@.skip(p0.len() as int)),
            batch_from_picks(string_views(passwords@), gs, length as int, random.picks@.skip(p0.len() as int)),
        decreases count - made,
    {
        let ghost w1 = random.words@;
        let ghost p1 = random.picks@;
        match generate_one(length, &groups, &pool, random) {
            Ok(password) => {
                proof {
                    lemma_extended_trans(old(random).words@, w1, random.words@);
                    lemma_runs_join(w0, w1, random.words@, p0, p1, random.picks@, None::<R::Error>);
                    lemma_batch_step(string_views(passwords@), gs, length as int, p0, p1, random.picks@, password@);
                    assert(string_views(passwords@.push(password)) =~= string_views(passwords@).push(
                        password@,
                    ));
                }
                passwords.push(password);
            },
            Err(error) => {
                proof {
                    lemma_extended_trans(old(random).words@, w1, random.words@);
                    lemma_extended_trans(p0, p1, random.picks@);
                    lemma_runs_join(w0, w1, random.words@, p0, p1, random.picks@, Some(error));
                }
                zeroize_strings(&mut passwords);
                return Err(InternalError::Entropy(error));
            },
        }
        made = made + 1;
    }
    Ok(passwords)
}

/// Generates `count` passwords with operating-system entropy.
///
/// Validation happens before entropy is requested. No fallback generator is
/// used: when the operating system cannot supply entropy the batch fails.
pub fn generate_passwords(count: usize, length: usize, options: GenerationOptions) -> (result:
    Result<Vec<String>, GenerateError>)
    ensures
        match result {
            Ok(passwords) => batch_outcome::<getrandom::Error>(count, length, options, Ok(passwords))
                && exists|words: Seq<Result<u32, getrandom::Error>>, picks: Seq<Pick>|
                #![trigger picks_read(words, picks), batch_from_picks(string_views(passwords@), selected_groups(options), length as int, picks)]
                picks_read(words, picks) && batch_from_picks(
                    string_views(passwords@),
                    selected_groups(options),
                    length as int,
                    picks,
                ),
            Err(GenerateError::CountOutOfRange { count: c }) => batch_outcome::<getrandom::Error>(
                count,
                length,
                options,
                Err(InternalError::CountOutOfRange { count: c }),
            ),
            Err(GenerateError::LengthOutOfRange { length: l }) => batch_outcome::<getrandom::Error>(
                count,
                length,
                options,
                Err(InternalError::LengthOutOfRange { length: l }),
            ),
            Err(GenerateError::NoCharacterGroups) => batch_outcome::<getrandom::Error>(
                count,
                length,
                options,
                Err(InternalError::NoCharacterGroups),
            ),
            Err(GenerateError::Entropy(e)) => batch_outcome::<getrandom::Error>(
                count,
                length,
                options,
                Err(InternalError::Entropy(e)),
            ),
        },
{
    let mut random = Draws::new(OsRandom);
    let ghost p0 = random.picks@;
    let ghost w0 = random.words@;
    match generate_passwords_with_source(count, length, options, &mut random) {
        Ok(passwords) => {
            proof {
                let picks = random.picks@.skip(p0.len() as int);
                assert(batch_from_picks(
                    string_views(passwords@),
                    selected_groups(options),
                    length as int,
                    picks,
                ));
                let words = random.words@.skip(w0.len() as int);
                assert(picks_read(words, picks));
            }
            Ok(passwords)
        },
        Err(InternalError::CountOutOfRange { count }) => Err(GenerateError::CountOutOfRange { count }),
        Err(InternalError::LengthOutOfRange { length }) => Err(
            GenerateError::LengthOutOfRange { length },
        ),
        Err(InternalError::NoCharacterGroups) => Err(GenerateError::NoCharacterGroups),
        Err(InternalError::Entropy(error)) => Err(GenerateError::Entropy(error)),
    }
}

} // verus!
