//! Where the host puts its files: paths are text, joined as `Path::join`
//! joins a relative path onto a base on Unix.

use vstd::prelude::*;
use vstd::string::*;

use crate::decimal::{
    decimal, lemma_decimal_injective, lemma_parse_render_roundtrip, parse_u64, parse_u64_spec,
    render_u64,
};

verus! {

/// The two host programs: the one that executes on SP1 and dumps artifacts,
/// and the one that proves on Pico.
#[derive(Clone, Copy, Debug, PartialEq, Eq, Structural)]
pub enum HostFlavor {
    Sp1,
    Pico,
}

/// `part` placed under `base`: a separator goes between them unless `base`
/// is empty or already ends with one.
pub open spec fn join_spec(base: Seq<char>, part: Seq<char>) -> Seq<char> {
    if base.len() == 0 {
        part
    } else if base.last() == '/' {
        base + part
    } else {
        base + seq!['/'] + part
    }
}

/// The name of the directory level that records the subblock gas limit.
pub open spec fn gas_segment_spec(gas_limit: Option<u64>) -> Seq<char> {
    match gas_limit {
        Some(g) => "gas"@ + decimal(g as nat),
        None => "gasUNSET"@,
    }
}

/// The directory for a block's dumps: `block<n>/gas<limit>` under the given
/// directory, or under `.` when none is given.
pub open spec fn dump_dir_spec(
    dump_dir: Option<Seq<char>>,
    block_number: u64,
    gas_limit_var: Option<Seq<char>>,
) -> Seq<char> {
    let base = match dump_dir {
        Some(d) => d,
        None => "."@,
    };
    let gas = match gas_limit_var {
        Some(v) => parse_u64_spec(v),
        None => None,
    };
    join_spec(join_spec(base, "block"@ + decimal(block_number as nat)), gas_segment_spec(gas))
}

/// Joining `y` below the result of joining `x` below `base` is joining `x/y`
/// below `base`, when `x` does not end in a separator.
pub proof fn lemma_join_nested(base: Seq<char>, x: Seq<char>, y: Seq<char>)
    requires
        x.len() > 0,
        x.last() != '/',
    ensures
        join_spec(join_spec(base, x), y) == join_spec(base, x + "/"@ + y),
{
    reveal_strlit("/");
    let j = join_spec(base, x);
    assert(j.len() > 0 && j.last() == x.last());
    assert(join_spec(join_spec(base, x), y) =~= join_spec(base, x + "/"@ + y));
}

/// Below one base, different parts give different paths.
pub proof fn lemma_join_injective(base: Seq<char>, x: Seq<char>, y: Seq<char>)
    requires
        join_spec(base, x) == join_spec(base, y),
    ensures
        x == y,
{
    let k: int = if base.len() == 0 {
        0
    } else if base.last() == '/' {
        base.len() as int
    } else {
        base.len() + 1int
    };
    assert(join_spec(base, x).skip(k) =~= x);
    assert(join_spec(base, y).skip(k) =~= y);
}

/// A joined path ends with the part that was placed.
pub proof fn lemma_join_ends_with(base: Seq<char>, part: Seq<char>)
    ensures
        join_spec(base, part).len() >= part.len(),
        join_spec(base, part).skip(join_spec(base, part).len() - part.len()) == part,
{
    let j = join_spec(base, part);
    assert(j.skip(j.len() - part.len()) =~= part);
}

/// The dump directory's last level names the gas limit alone: where the
/// setting parses as a number `g` it ends in `gas<g>`, and otherwise in
/// `gasUNSET`, whatever dump directory is given; without one, the result is
/// the same as with `.`.
pub proof fn lemma_dump_dir_gas_level(
    dump_dir: Option<Seq<char>>,
    block_number: u64,
    gas_limit_var: Option<Seq<char>>,
)
    ensures
        dump_dir_spec(None, block_number, gas_limit_var) == dump_dir_spec(
            Some("."@),
            block_number,
            gas_limit_var,
        ),
        ({
            let r = dump_dir_spec(dump_dir, block_number, gas_limit_var);
            let seg = match gas_limit_var {
                Some(v) => match parse_u64_spec(v) {
                    Some(g) => "gas"@ + decimal(g as nat),
                    None => "gasUNSET"@,
                },
                None => "gasUNSET"@,
            };
            r.len() >= seg.len() && r.skip(r.len() - seg.len()) == seg
        }),
{
    let base = match dump_dir {
        Some(d) => d,
        None => "."@,
    };
    let gas = match gas_limit_var {
        Some(v) => parse_u64_spec(v),
        None => None,
    };
    lemma_join_ends_with(
        join_spec(base, "block"@ + decimal(block_number as nat)),
        gas_segment_spec(gas),
    );
}

/// Places `part` under `base`; for a relative `part` this is what
/// `Path::new(base).join(part)` gives on Unix.
pub fn join_path(base: &str, part: &str) -> (r: String)
    ensures
        r@ == join_spec(base@, part@),
{
    let mut r = String::from_str(base);
    let len = base.unicode_len();
    if len > 0 && base.get_char(len - 1) != '/' {
        proof {
            reveal_strlit("/");
        }
        r.append("/");
    }
    r.append(part);
    r
}

/// `prefix` followed by the decimal text of `n`.
pub(crate) fn with_number(prefix: &str, n: u64) -> (r: String)
    ensures
        r@ == prefix@ + decimal(n as nat),
{
    let mut r = String::from_str(prefix);
    let digits = render_u64(n);
    r.append(digits.as_str());
    r
}

/// The directory level naming the subblock gas limit, `gas<limit>`, or
/// `gasUNSET` when no limit is known.
pub fn gas_segment(gas_limit: Option<u64>) -> (r: String)
    ensures
        r@ == gas_segment_spec(gas_limit),
{
    match gas_limit {
        Some(g) => with_number("gas", g),
        None => String::from_str("gasUNSET"),
    }
}

/// The directory for a block's dumps. `gas_limit_var` is the value of the
/// `SUBBLOCK_GAS_LIMIT` setting, if set; it counts only where it parses as a
/// `u64`.
pub fn resolve_dump_dir(dump_dir: Option<&str>, block_number: u64, gas_limit_var: Option<&str>) -> (r:
    String)
    ensures
        r@ == dump_dir_spec(
            match dump_dir {
                Some(d) => Some(d@),
                None => None,
            },
            block_number,
            match gas_limit_var {
                Some(v) => Some(v@),
                None => None,
            },
        ),
{
    let gas = match gas_limit_var {
        Some(v) => parse_u64(v),
        None => None,
    };
    let segment = gas_segment(gas);
    let block = with_number("block", block_number);
    let base = match dump_dir {
        Some(d) => String::from_str(d),
        None => String::from_str("."),
    };
    let block_dir = join_path(base.as_str(), block.as_str());
    join_path(block_dir.as_str(), segment.as_str())
}

/// The directory in which the SP1 host keeps a block's artifacts.
pub open spec fn artifacts_dir_spec(block_number: u64) -> Seq<char> {
    "./artifacts/"@ + decimal(block_number as nat)
}

/// The artifacts directory names the block itself: `./artifacts/` followed by
/// text that parses back to the block number; so different blocks have
/// different artifacts directories.
pub proof fn lemma_artifacts_dir_names_block(a: u64, b: u64)
    ensures
        artifacts_dir_spec(a).take(12) == "./artifacts/"@,
        parse_u64_spec(artifacts_dir_spec(a).skip(12)) == Some(a),
        artifacts_dir_spec(a) == artifacts_dir_spec(b) ==> a == b,
{
    reveal_strlit("./artifacts/");
    let da = decimal(a as nat);
    let db = decimal(b as nat);
    assert(artifacts_dir_spec(a).take(12) =~= "./artifacts/"@);
    assert(artifacts_dir_spec(a).skip(12) =~= da);
    assert(artifacts_dir_spec(b).skip(12) =~= db);
    lemma_parse_render_roundtrip(a);
    if artifacts_dir_spec(a) == artifacts_dir_spec(b) {
        lemma_decimal_injective(a, b);
    }
}

/// The name of the directory that holds the subblock inputs.
pub open spec fn stdins_dir_name(flavor: HostFlavor) -> Seq<char> {
    match flavor {
        HostFlavor::Sp1 => "subblock-stdins"@,
        HostFlavor::Pico => "subblock_stdins"@,
    }
}

/// `./artifacts/<block>`: where the SP1 host writes a block's artifacts.
pub fn artifacts_dir(block_number: u64) -> (r: String)
    ensures
        r@ == artifacts_dir_spec(block_number),
{
    with_number("./artifacts/", block_number)
}

/// The name of the file that holds the aggregation input.
pub open spec fn aggregation_stdin_name(flavor: HostFlavor) -> Seq<char> {
    match flavor {
        HostFlavor::Sp1 => "agg-stdin.bin"@,
        HostFlavor::Pico => "agg_stdin.bin"@,
    }
}

/// The file for the encoded aggregation input within `dir`: `agg-stdin.bin`
/// for the SP1 host, `agg_stdin.bin` for the Pico host.
pub fn aggregation_stdin_file(flavor: HostFlavor, dir: &str) -> (r: String)
    ensures
        r@ == join_spec(dir@, aggregation_stdin_name(flavor)),
{
    match flavor {
        HostFlavor::Sp1 => join_path(dir, "agg-stdin.bin"),
        HostFlavor::Pico => join_path(dir, "agg_stdin.bin"),
    }
}

/// The file for the subblock program's ELF within `dir`.
pub fn subblock_elf_file(dir: &str) -> (r: String)
    ensures
        r@ == join_spec(dir@, "subblock_elf.bin"@),
{
    join_path(dir, "subblock_elf.bin")
}

/// The file for the aggregation program's ELF within `dir`.
pub fn aggregation_elf_file(dir: &str) -> (r: String)
    ensures
        r@ == join_spec(dir@, "agg_elf.bin"@),
{
    join_path(dir, "agg_elf.bin")
}

/// The directory for the subblock inputs within `dir`: `subblock-stdins` for
/// the SP1 host, `subblock_stdins` for the Pico host.
pub fn subblock_stdins_dir(flavor: HostFlavor, dir: &str) -> (r: String)
    ensures
        r@ == join_spec(dir@, stdins_dir_name(flavor)),
{
    match flavor {
        HostFlavor::Sp1 => join_path(dir, "subblock-stdins"),
        HostFlavor::Pico => join_path(dir, "subblock_stdins"),
    }
}

/// The file `<index>.bin` within `dir`.
pub open spec fn numbered_bin_file_spec(dir: Seq<char>, index: u64) -> Seq<char> {
    join_spec(dir, decimal(index as nat) + ".bin"@)
}

/// The file for index `i` is named by `i` itself: its name within `dir` is
/// text that parses back to `i`, followed by `.bin`; so different indices
/// have different files.
pub proof fn lemma_numbered_file_names_index(dir: Seq<char>, i: u64, k: u64)
    ensures
        ({
            let f = numbered_bin_file_spec(dir, i);
            let name = decimal(i as nat) + ".bin"@;
            &&& f.len() >= name.len()
            &&& f.skip(f.len() - name.len()) == name
            &&& parse_u64_spec(name.take(name.len() - 4)) == Some(i)
            &&& name.skip(name.len() - 4) == ".bin"@
        }),
        numbered_bin_file_spec(dir, i) == numbered_bin_file_spec(dir, k) ==> i == k,
{
    reveal_strlit(".bin");
    let name = decimal(i as nat) + ".bin"@;
    lemma_join_ends_with(dir, name);
    assert(name.take(name.len() - 4) =~= decimal(i as nat));
    assert(name.skip(name.len() - 4) =~= ".bin"@);
    lemma_parse_render_roundtrip(i);
    if numbered_bin_file_spec(dir, i) == numbered_bin_file_spec(dir, k) {
        let other = decimal(k as nat) + ".bin"@;
        lemma_join_injective(dir, name, other);
        assert(other.take(other.len() - 4) =~= decimal(k as nat));
        lemma_decimal_injective(i, k);
    }
}

pub fn numbered_bin_file(dir: &str, index: u64) -> (r: String)
    ensures
        r@ == numbered_bin_file_spec(dir@, index),
{
    let mut name = render_u64(index);
    name.append(".bin");
    join_path(dir, name.as_str())
}

} // verus!
