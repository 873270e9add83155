//! The on-disk cache of host execution results: where an entry is looked up
//! and written, and what the host does with what it finds there.

use vstd::prelude::*;
use vstd::string::*;

use crate::decimal::{
    all_digits, decimal, is_digit, lemma_decimal_digits, lemma_decimal_injective, render_u64,
};
use crate::paths::{
    join_path, join_spec, lemma_join_injective, lemma_join_nested, with_number, HostFlavor,
};

verus! {

/// The top directory of a host flavor's cache entries, where it both looks
/// entries up and writes them.
pub open spec fn cache_prefix(flavor: HostFlavor) -> Seq<char> {
    match flavor {
        HostFlavor::Sp1 => "input"@,
        HostFlavor::Pico => "subblock-input"@,
    }
}

/// The entry a host looks up: `<prefix>/<chain id>/<block>.bin` under the
/// cache directory.
pub open spec fn cache_read_path_spec(
    flavor: HostFlavor,
    cache_dir: Seq<char>,
    chain_id: u64,
    block_number: u64,
) -> Seq<char> {
    join_spec(
        cache_dir,
        cache_prefix(flavor) + "/"@ + decimal(chain_id as nat) + "/"@ + decimal(
            block_number as nat,
        ) + ".bin"@,
    )
}

/// The directory that a host creates for a chain's entries:
/// `<prefix>/<chain id>` under the cache directory.
pub open spec fn cache_entry_dir_spec(flavor: HostFlavor, cache_dir: Seq<char>, chain_id: u64) -> Seq<
    char,
> {
    join_spec(cache_dir, cache_prefix(flavor) + "/"@ + decimal(chain_id as nat))
}

/// The entry a host writes after fetching a block's execution results:
/// `<block>.bin` in the chain's entry directory.
pub open spec fn cache_write_path_spec(
    flavor: HostFlavor,
    cache_dir: Seq<char>,
    chain_id: u64,
    block_number: u64,
) -> Seq<char> {
    join_spec(
        cache_entry_dir_spec(flavor, cache_dir, chain_id),
        decimal(block_number as nat) + ".bin"@,
    )
}

/// Each host looks a block up exactly where it writes the block's entry,
/// for every cache directory, chain and block: an entry created from RPC data
/// is the one found next time.
pub proof fn lemma_cache_write_then_read(
    flavor: HostFlavor,
    cache_dir: Seq<char>,
    chain_id: u64,
    block_number: u64,
)
    ensures
        cache_write_path_spec(flavor, cache_dir, chain_id, block_number) == cache_read_path_spec(
            flavor,
            cache_dir,
            chain_id,
            block_number,
        ),
{
    reveal_strlit("/");
    let p = cache_prefix(flavor);
    let chain = decimal(chain_id as nat);
    let block = decimal(block_number as nat);
    lemma_decimal_digits(chain_id as nat);
    assert(is_digit(chain[chain.len() - 1]));
    let x = p + "/"@ + chain;
    assert(x.last() == chain.last());
    lemma_join_nested(cache_dir, x, block + ".bin"@);
    assert(x + "/"@ + (block + ".bin"@) =~= p + "/"@ + chain + "/"@ + block + ".bin"@);
}

/// Splits `a + "/" + r` where `a` holds no separator.
proof fn lemma_split_at_separator(a1: Seq<char>, r1: Seq<char>, a2: Seq<char>, r2: Seq<char>)
    requires
        all_digits(a1),
        all_digits(a2),
        a1 + "/"@ + r1 == a2 + "/"@ + r2,
    ensures
        a1 == a2,
        r1 == r2,
{
    reveal_strlit("/");
    let s = a1 + "/"@ + r1;
    if a1.len() < a2.len() {
        assert(s[a1.len() as int] == '/');
        assert(s[a1.len() as int] == a2[a1.len() as int]);
        assert(is_digit(a2[a1.len() as int]));
    } else if a2.len() < a1.len() {
        assert(s[a2.len() as int] == '/');
        assert(s[a2.len() as int] == a1[a2.len() as int]);
        assert(is_digit(a1[a2.len() as int]));
    }
    assert(s.take(a1.len() as int) =~= a1);
    assert((a2 + "/"@ + r2).take(a2.len() as int) =~= a2);
    assert(s.skip(a1.len() + 1int) =~= r1);
    assert((a2 + "/"@ + r2).skip(a2.len() + 1int) =~= r2);
}

/// Each chain and block has a cache entry of its own: within one cache
/// directory, different chains or blocks are looked up at different paths.
pub proof fn lemma_cache_entries_distinct(
    flavor: HostFlavor,
    cache_dir: Seq<char>,
    chain_a: u64,
    block_a: u64,
    chain_b: u64,
    block_b: u64,
)
    requires
        cache_read_path_spec(flavor, cache_dir, chain_a, block_a) == cache_read_path_spec(
            flavor,
            cache_dir,
            chain_b,
            block_b,
        ),
    ensures
        chain_a == chain_b,
        block_a == block_b,
{
    reveal_strlit("/");
    let p = cache_prefix(flavor);
    let ca = decimal(chain_a as nat);
    let cb = decimal(chain_b as nat);
    let ba = decimal(block_a as nat);
    let bb = decimal(block_b as nat);
    let ra = p + "/"@ + ca + "/"@ + ba + ".bin"@;
    let rb = p + "/"@ + cb + "/"@ + bb + ".bin"@;
    lemma_join_injective(cache_dir, ra, rb);
    let k: int = p.len() + 1int;
    assert(ra.skip(k) =~= ca + "/"@ + (ba + ".bin"@));
    assert(rb.skip(k) =~= cb + "/"@ + (bb + ".bin"@));
    lemma_decimal_digits(chain_a as nat);
    lemma_decimal_digits(chain_b as nat);
    lemma_split_at_separator(ca, ba + ".bin"@, cb, bb + ".bin"@);
    assert((ba + ".bin"@).take(ba.len() as int) =~= ba);
    assert((bb + ".bin"@).take(bb.len() as int) =~= bb);
    lemma_decimal_injective(chain_a, chain_b);
    lemma_decimal_injective(block_a, block_b);
}

/// The cache entry to look up, if a cache directory is configured.
pub fn cache_read_path(flavor: HostFlavor, cache_dir: &str, chain_id: u64, block_number: u64) -> (r:
    String)
    ensures
        r@ == cache_read_path_spec(flavor, cache_dir@, chain_id, block_number),
{
    let mut rel = match flavor {
        HostFlavor::Sp1 => String::from_str("input/"),
        HostFlavor::Pico => String::from_str("subblock-input/"),
    };
    let chain = render_u64(chain_id);
    let block = render_u64(block_number);
    proof {
        reveal_strlit("input/");
        reveal_strlit("input");
        reveal_strlit("subblock-input/");
        reveal_strlit("subblock-input");
        reveal_strlit("/");
    }
    rel.append(chain.as_str());
    rel.append("/");
    rel.append(block.as_str());
    rel.append(".bin");
    join_path(cache_dir, rel.as_str())
}

/// The directory in which a chain's cache entries are written.
pub fn cache_entry_dir(flavor: HostFlavor, cache_dir: &str, chain_id: u64) -> (r: String)
    ensures
        r@ == cache_entry_dir_spec(flavor, cache_dir@, chain_id),
{
    let rel = match flavor {
        HostFlavor::Sp1 => with_number("input/", chain_id),
        HostFlavor::Pico => with_number("subblock-input/", chain_id),
    };
    proof {
        reveal_strlit("input/");
        reveal_strlit("input");
        reveal_strlit("subblock-input/");
        reveal_strlit("subblock-input");
        reveal_strlit("/");
        assert(rel@ =~= cache_prefix(flavor) + "/"@ + decimal(chain_id as nat));
    }
    join_path(cache_dir, rel.as_str())
}

/// The cache entry written for a block.
pub fn cache_write_path(flavor: HostFlavor, cache_dir: &str, chain_id: u64, block_number: u64) -> (r:
    String)
    ensures
        r@ == cache_write_path_spec(flavor, cache_dir@, chain_id, block_number),
{
    let dir = cache_entry_dir(flavor, cache_dir, chain_id);
    let mut name = render_u64(block_number);
    name.append(".bin");
    join_path(dir.as_str(), name.as_str())
}

/// The entry to look up: none without a cache directory.
pub fn cache_lookup_path(
    flavor: HostFlavor,
    cache_dir: Option<&str>,
    chain_id: u64,
    block_number: u64,
) -> (r: Option<String>)
    ensures
        match cache_dir {
            None => r is None,
            Some(d) => r is Some && r.unwrap()@ == cache_read_path_spec(
                flavor,
                d@,
                chain_id,
                block_number,
            ),
        },
{
    match cache_dir {
        None => None,
        Some(d) => Some(cache_read_path(flavor, d, chain_id, block_number)),
    }
}

/// What looking up a cache entry found.
pub enum CacheProbe<T> {
    /// No file at the entry's path.
    Absent,
    /// The file was read and decoded.
    Loaded(T),
    /// The file exists but could not be read or decoded.
    Unreadable,
}

/// What the host does with a lookup: use the cached value, go without it, or
/// delete the unreadable entry and go without it.
pub enum CacheOutcome<T> {
    Hit(T),
    Miss,
    DiscardThenMiss,
}

/// What the host does with each kind of lookup result.
pub open spec fn outcome_spec<T>(probe: CacheProbe<T>) -> CacheOutcome<T> {
    match probe {
        CacheProbe::Absent => CacheOutcome::Miss,
        CacheProbe::Loaded(v) => CacheOutcome::Hit(v),
        CacheProbe::Unreadable => CacheOutcome::DiscardThenMiss,
    }
}

/// Settles a cache lookup: a decoded entry is used, an unreadable one is
/// removed, and a missing one is simply a miss.
pub fn settle_cache_probe<T>(probe: CacheProbe<T>) -> (r: CacheOutcome<T>)
    ensures
        r == outcome_spec(probe),
{
    match probe {
        CacheProbe::Absent => CacheOutcome::Miss,
        CacheProbe::Loaded(v) => CacheOutcome::Hit(v),
        CacheProbe::Unreadable => CacheOutcome::DiscardThenMiss,
    }
}

/// What lies at a cache entry's path, as far as a lookup can tell: nothing,
/// a file that decodes, or a file that does not, which the file system lets
/// the host remove or not.
pub enum CacheEntry<T> {
    Missing,
    Decodable(T),
    Corrupt { removable: bool },
}

/// What probing an entry finds.
pub open spec fn probe_entry<T>(e: CacheEntry<T>) -> CacheProbe<T> {
    match e {
        CacheEntry::Missing => CacheProbe::Absent,
        CacheEntry::Decodable(v) => CacheProbe::Loaded(v),
        CacheEntry::Corrupt { .. } => CacheProbe::Unreadable,
    }
}

/// The value a lookup of an entry yields: the cached value on a hit, and
/// nothing otherwise. No outcome is an error.
pub open spec fn lookup_value<T>(e: CacheEntry<T>) -> Option<T> {
    match outcome_spec(probe_entry(e)) {
        CacheOutcome::Hit(v) => Some(v),
        _ => None,
    }
}

/// The entry after a lookup: a removable corrupt file is gone, anything else
/// stays as it was.
pub open spec fn entry_after_lookup<T>(e: CacheEntry<T>) -> CacheEntry<T> {
    match outcome_spec(probe_entry(e)) {
        CacheOutcome::DiscardThenMiss => match e {
            CacheEntry::Corrupt { removable: true } => CacheEntry::Missing,
            _ => e,
        },
        _ => e,
    }
}

/// The entry at path `p` of a cache, missing where nothing is recorded.
pub open spec fn entry_at<T>(fs: Map<Seq<char>, CacheEntry<T>>, p: Seq<char>) -> CacheEntry<T> {
    if fs.contains_key(p) {
        fs[p]
    } else {
        CacheEntry::Missing
    }
}

/// A whole lookup of a block on a cache's entries: the value it yields and
/// the entries afterwards. Without a cache directory nothing is looked at.
pub open spec fn cache_lookup_spec<T>(
    fs: Map<Seq<char>, CacheEntry<T>>,
    flavor: HostFlavor,
    cache_dir: Option<Seq<char>>,
    chain_id: u64,
    block_number: u64,
) -> (Option<T>, Map<Seq<char>, CacheEntry<T>>) {
    match cache_dir {
        None => (None, fs),
        Some(d) => {
            let p = cache_read_path_spec(flavor, d, chain_id, block_number);
            let e = entry_at(fs, p);
            let after = entry_after_lookup(e);
            (lookup_value(e), if after == e {
                fs
            } else {
                fs.insert(p, after)
            })
        },
    }
}

/// What a lookup does to each kind of entry: a file that decodes yields its
/// value and stays; a missing file yields nothing and stays missing; a
/// corrupt file yields nothing and is gone afterwards exactly when it can be
/// removed.
pub proof fn lemma_lookup_by_entry<T>(v: T, removable: bool)
    ensures
        lookup_value(CacheEntry::Decodable(v)) == Some(v),
        entry_after_lookup(CacheEntry::Decodable(v)) == CacheEntry::Decodable(v),
        lookup_value(CacheEntry::<T>::Missing) == None::<T>,
        entry_after_lookup(CacheEntry::<T>::Missing) == CacheEntry::<T>::Missing,
        lookup_value(CacheEntry::<T>::Corrupt { removable }) == None::<T>,
        entry_after_lookup(CacheEntry::<T>::Corrupt { removable }) == if removable {
            CacheEntry::<T>::Missing
        } else {
            CacheEntry::<T>::Corrupt { removable }
        },
{
}

/// A second lookup right after a first yields the same value and changes
/// nothing more.
pub proof fn lemma_cache_lookup_repeatable<T>(
    fs: Map<Seq<char>, CacheEntry<T>>,
    flavor: HostFlavor,
    cache_dir: Option<Seq<char>>,
    chain_id: u64,
    block_number: u64,
)
    ensures
        ({
            let (r1, fs1) = cache_lookup_spec(fs, flavor, cache_dir, chain_id, block_number);
            let (r2, fs2) = cache_lookup_spec(fs1, flavor, cache_dir, chain_id, block_number);
            r2 == r1 && fs2 == fs1
        }),
{
    if let Some(d) = cache_dir {
        let p = cache_read_path_spec(flavor, d, chain_id, block_number);
        let e = entry_at(fs, p);
        let fs1 = cache_lookup_spec(fs, flavor, cache_dir, chain_id, block_number).1;
        assert(entry_at(fs1, p) == entry_after_lookup(e));
    }
}

/// A lookup depends only on the entry at the block's own path, and changes
/// no other entry.
pub proof fn lemma_cache_lookup_local<T>(
    fs_a: Map<Seq<char>, CacheEntry<T>>,
    fs_b: Map<Seq<char>, CacheEntry<T>>,
    flavor: HostFlavor,
    cache_dir: Seq<char>,
    chain_id: u64,
    block_number: u64,
    q: Seq<char>,
)
    requires
        entry_at(fs_a, cache_read_path_spec(flavor, cache_dir, chain_id, block_number)) == entry_at(
            fs_b,
            cache_read_path_spec(flavor, cache_dir, chain_id, block_number),
        ),
    ensures
        ({
            let p = cache_read_path_spec(flavor, cache_dir, chain_id, block_number);
            let (ra, after_a) = cache_lookup_spec(
                fs_a,
                flavor,
                Some(cache_dir),
                chain_id,
                block_number,
            );
            let (rb, after_b) = cache_lookup_spec(
                fs_b,
                flavor,
                Some(cache_dir),
                chain_id,
                block_number,
            );
            &&& ra == rb
            &&& entry_at(after_a, p) == entry_at(after_b, p)
            &&& q != p ==> entry_at(after_a, q) == entry_at(fs_a, q)
        }),
{
}

/// Where the host takes a block's execution results from.
#[derive(Clone, Copy, Debug, PartialEq, Eq, Structural)]
pub enum InputSource {
    /// A cache entry that was found and read.
    Cache,
    /// Execution against an RPC endpoint.
    Rpc,
}

/// Why the host cannot go on.
#[derive(Clone, Copy, Debug, PartialEq, Eq, Structural)]
pub enum HostError {
    /// No cache entry was found and no RPC endpoint is configured.
    NoInputSource,
}

/// Picks the source of a block's execution results: the cache where it had
/// the entry, else RPC where an endpoint is configured; with neither, the
/// host cannot go on.
pub fn choose_input_source(cache_hit: bool, rpc_configured: bool) -> (r: Result<
    InputSource,
    HostError,
>)
    ensures
        cache_hit ==> r == Ok::<InputSource, HostError>(InputSource::Cache),
        !cache_hit && rpc_configured ==> r == Ok::<InputSource, HostError>(InputSource::Rpc),
        !cache_hit && !rpc_configured ==> r == Err::<InputSource, HostError>(
            HostError::NoInputSource,
        ),
{
    if cache_hit {
        Ok(InputSource::Cache)
    } else if rpc_configured {
        Ok(InputSource::Rpc)
    } else {
        Err(HostError::NoInputSource)
    }
}

} // verus!
