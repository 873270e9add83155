//! The inputs of the subblock programs and of the aggregation program, built
//! from the encoded results of host execution.

use vstd::prelude::*;
use vstd::slice::slice_to_vec;

use crate::encoding::{
    encode_digest, encode_frame_list, encode_frames, encode_words, lemma_encode_frame_list_injective,
    lemma_encode_words_injective, lengths_fit,
};
use crate::paths::{join_path, join_spec};
use crate::stdin::{lemma_bytes_deep_view, ProgramStdin};

verus! {

/// What host execution produced for one block, each value already in the
/// encoding in which the programs read it.
pub struct EncodedHostOutput {
    /// The encoded input of each subblock.
    pub subblock_inputs: Vec<Vec<u8>>,
    /// The encoded output of each subblock.
    pub subblock_outputs: Vec<Vec<u8>>,
    /// The state each subblock starts from, as raw bytes.
    pub subblock_parent_states: Vec<Vec<u8>>,
    /// The encoded input of the aggregation program.
    pub agg_input: Vec<u8>,
    /// The encoded state root of the aggregation input's parent header.
    pub parent_state_root: Vec<u8>,
}

impl EncodedHostOutput {
    /// Whether there is an output for every subblock input.
    pub open spec fn outputs_match(&self) -> bool {
        self.subblock_inputs@.len() == self.subblock_outputs@.len()
    }
}

/// The public values of the subblocks: for each subblock, its encoded input
/// followed by its encoded output.
pub open spec fn public_values_of(inputs: Seq<Seq<u8>>, outputs: Seq<Seq<u8>>) -> Seq<Seq<u8>> {
    Seq::new(inputs.len(), |i: int| inputs[i] + outputs[i])
}

/// The four parts of the aggregation program's input, each in its encoding:
/// the public values, the subblock verifying key digest, the (already
/// encoded) aggregation input and parent state root.
pub open spec fn aggregation_parts(
    public_values: Seq<Seq<u8>>,
    vk_digest: Seq<u32>,
    agg_input: Seq<u8>,
    parent_state_root: Seq<u8>,
) -> Seq<Seq<u8>> {
    seq![encode_frame_list(public_values), encode_words(vk_digest), agg_input, parent_state_root]
}

/// The frames of the aggregation program's input, in the order in which the
/// program reads them: the public values, the subblock verifying key digest,
/// the aggregation input and the parent state root.
pub open spec fn aggregation_frames(host: EncodedHostOutput, vk_digest: Seq<u32>) -> Seq<Seq<u8>> {
    aggregation_parts(
        public_values_of(host.subblock_inputs.deep_view(), host.subblock_outputs.deep_view()),
        vk_digest,
        host.agg_input@,
        host.parent_state_root@,
    )
}

/// Reading the aggregation input (or the dumped files, which hold the same
/// encodings) gives back each part that was written: equal encodings come
/// only from equal public values, digests, aggregation inputs and roots.
pub proof fn lemma_aggregation_parts_read_back(
    pv1: Seq<Seq<u8>>,
    vk1: Seq<u32>,
    agg1: Seq<u8>,
    root1: Seq<u8>,
    pv2: Seq<Seq<u8>>,
    vk2: Seq<u32>,
    agg2: Seq<u8>,
    root2: Seq<u8>,
)
    requires
        lengths_fit(pv1),
        lengths_fit(pv2),
        aggregation_parts(pv1, vk1, agg1, root1) == aggregation_parts(pv2, vk2, agg2, root2),
    ensures
        pv1 == pv2,
        vk1 == vk2,
        agg1 == agg2,
        root1 == root2,
{
    let a = aggregation_parts(pv1, vk1, agg1, root1);
    let b = aggregation_parts(pv2, vk2, agg2, root2);
    assert(a[0] == b[0]);
    assert(a[1] == b[1]);
    assert(a[2] == b[2]);
    assert(a[3] == b[3]);
    lemma_encode_frame_list_injective(pv1, pv2);
    lemma_encode_words_injective(vk1, vk2);
}

/// The aggregation input has four frames, in the order in which the
/// aggregation program reads them: the list of public values, the key
/// digest, the aggregation input, and the parent state root.
pub proof fn lemma_aggregation_frames_in_read_order(host: EncodedHostOutput, vk_digest: Seq<u32>)
    ensures
        aggregation_frames(host, vk_digest).len() == 4,
        aggregation_frames(host, vk_digest)[0] == encode_frame_list(
            public_values_of(host.subblock_inputs.deep_view(), host.subblock_outputs.deep_view()),
        ),
        aggregation_frames(host, vk_digest)[1] == encode_words(vk_digest),
        aggregation_frames(host, vk_digest)[2] == host.agg_input@,
        aggregation_frames(host, vk_digest)[3] == host.parent_state_root@,
{
}

/// Reading an aggregation input built by `to_aggregation_stdin` back, in the
/// order the aggregation program reads it, gives each part that was written:
/// two such inputs with the same frames have the same public values, digest,
/// aggregation input and parent state root. (Every built input fits the
/// length limit; `to_aggregation_stdin` ensures it.)
pub proof fn lemma_aggregation_stdin_read_back(
    host_a: EncodedHostOutput,
    vk_a: Seq<u32>,
    host_b: EncodedHostOutput,
    vk_b: Seq<u32>,
)
    requires
        lengths_fit(
            public_values_of(host_a.subblock_inputs.deep_view(), host_a.subblock_outputs.deep_view()),
        ),
        lengths_fit(
            public_values_of(host_b.subblock_inputs.deep_view(), host_b.subblock_outputs.deep_view()),
        ),
        aggregation_frames(host_a, vk_a) == aggregation_frames(host_b, vk_b),
    ensures
        public_values_of(host_a.subblock_inputs.deep_view(), host_a.subblock_outputs.deep_view())
            == public_values_of(
            host_b.subblock_inputs.deep_view(),
            host_b.subblock_outputs.deep_view(),
        ),
        vk_a == vk_b,
        host_a.agg_input@ == host_b.agg_input@,
        host_a.parent_state_root@ == host_b.parent_state_root@,
{
    lemma_aggregation_parts_read_back(
        public_values_of(host_a.subblock_inputs.deep_view(), host_a.subblock_outputs.deep_view()),
        vk_a,
        host_a.agg_input@,
        host_a.parent_state_root@,
        public_values_of(host_b.subblock_inputs.deep_view(), host_b.subblock_outputs.deep_view()),
        vk_b,
        host_b.agg_input@,
        host_b.parent_state_root@,
    );
}

/// The aggregation input does not depend on the subblocks' parent states:
/// host outputs that agree on the subblock inputs and outputs, the
/// aggregation input and its parent state root give the same frames.
pub proof fn lemma_aggregation_ignores_parent_states(
    host_a: EncodedHostOutput,
    host_b: EncodedHostOutput,
    vk_digest: Seq<u32>,
)
    requires
        host_a.subblock_inputs.deep_view() == host_b.subblock_inputs.deep_view(),
        host_a.subblock_outputs.deep_view() == host_b.subblock_outputs.deep_view(),
        host_a.agg_input@ == host_b.agg_input@,
        host_a.parent_state_root@ == host_b.parent_state_root@,
    ensures
        aggregation_frames(host_a, vk_digest) == aggregation_frames(host_b, vk_digest),
{
}

/// The frames of subblock `i`'s input: its encoded input, then its parent
/// state.
pub open spec fn subblock_frames(host: EncodedHostOutput, i: int) -> Seq<Seq<u8>> {
    seq![host.subblock_inputs@[i]@, host.subblock_parent_states@[i]@]
}

/// There is exactly one public value per subblock, and subblock `i`'s public
/// value is its own input followed by its own output.
pub proof fn lemma_public_values_one_per_subblock(inputs: Seq<Seq<u8>>, outputs: Seq<Seq<u8>>)
    requires
        inputs.len() == outputs.len(),
    ensures
        public_values_of(inputs, outputs).len() == inputs.len(),
        forall|i: int|
            0 <= i < inputs.len() ==> {
                let v = #[trigger] public_values_of(inputs, outputs)[i];
                &&& v.len() == inputs[i].len() + outputs[i].len()
                &&& v.take(inputs[i].len() as int) == inputs[i]
                &&& v.skip(inputs[i].len() as int) == outputs[i]
            },
{
    assert forall|i: int| 0 <= i < inputs.len() implies {
        let v = #[trigger] public_values_of(inputs, outputs)[i];
        &&& v.len() == inputs[i].len() + outputs[i].len()
        &&& v.take(inputs[i].len() as int) == inputs[i]
        &&& v.skip(inputs[i].len() as int) == outputs[i]
    } by {
        let v = public_values_of(inputs, outputs)[i];
        assert(v == inputs[i] + outputs[i]);
        assert(v.take(inputs[i].len() as int) =~= inputs[i]);
        assert(v.skip(inputs[i].len() as int) =~= outputs[i]);
    }
}

/// Subblock `i`'s input is exactly two frames: subblock `i`'s own encoded
/// input, then subblock `i`'s own parent state.
pub proof fn lemma_subblock_frames_own_index(host: EncodedHostOutput, i: int)
    ensures
        subblock_frames(host, i).len() == 2,
        subblock_frames(host, i)[0] == host.subblock_inputs@[i]@,
        subblock_frames(host, i)[1] == host.subblock_parent_states@[i]@,
{
}

/// Concatenates each subblock's encoded input and output.
pub fn public_values(host: &EncodedHostOutput) -> (pv: Vec<Vec<u8>>)
    requires
        host.outputs_match(),
    ensures
        pv.deep_view() == public_values_of(
            host.subblock_inputs.deep_view(),
            host.subblock_outputs.deep_view(),
        ),
        pv@.len() == host.subblock_inputs@.len(),
        forall|i: int|
            0 <= i < pv@.len() ==> #[trigger] pv@[i]@ == host.subblock_inputs@[i]@
                + host.subblock_outputs@[i]@,
        lengths_fit(pv.deep_view()),
{
    let n = host.subblock_inputs.len();
    let ghost inputs = host.subblock_inputs.deep_view();
    let ghost outputs = host.subblock_outputs.deep_view();
    let mut pv: Vec<Vec<u8>> = Vec::new();
    let mut i: usize = 0;
    while i < n
        invariant
            i <= n,
            n == host.subblock_inputs@.len(),
            n == host.subblock_outputs@.len(),
            inputs == host.subblock_inputs.deep_view(),
            outputs == host.subblock_outputs.deep_view(),
            pv.deep_view() =~= public_values_of(inputs, outputs).take(i as int),
            forall|k: int| 0 <= k < i ==> #[trigger] pv.deep_view()[k].len() <= usize::MAX,
        decreases n - i,
    {
        let mut current = slice_to_vec(host.subblock_inputs[i].as_slice());
        let mut output = slice_to_vec(host.subblock_outputs[i].as_slice());
        current.append(&mut output);
        let _ = current.len();
        proof {
            lemma_bytes_deep_view(host.subblock_inputs@[i as int]);
            lemma_bytes_deep_view(host.subblock_outputs@[i as int]);
            lemma_bytes_deep_view(current);
        }
        let ghost before = pv.deep_view();
        pv.push(current);
        assert(pv.deep_view() =~= before.push(current@));
        i = i + 1;
    }
    let _ = pv.len();
    assert(usize::MAX <= u64::MAX);
    proof {
        lemma_public_values_one_per_subblock(inputs, outputs);
        assert forall|k: int| 0 <= k < pv@.len() implies #[trigger] pv@[k]@
            == host.subblock_inputs@[k]@ + host.subblock_outputs@[k]@ by {
            lemma_bytes_deep_view(pv@[k]);
            lemma_bytes_deep_view(host.subblock_inputs@[k]);
            lemma_bytes_deep_view(host.subblock_outputs@[k]);
            assert(pv.deep_view()[k] == pv@[k].deep_view());
            assert(inputs[k] == host.subblock_inputs@[k].deep_view());
            assert(outputs[k] == host.subblock_outputs@[k].deep_view());
        }
    }
    pv
}

/// Builds the aggregation program's input, without the subblock proofs.
pub fn to_aggregation_stdin<P>(host: &EncodedHostOutput, vk_digest: &[u32; 8]) -> (stdin:
    ProgramStdin<P>)
    requires
        host.outputs_match(),
    ensures
        stdin.frames() == aggregation_frames(*host, vk_digest@),
        stdin.proofs@ == Seq::<P>::empty(),
        lengths_fit(
            public_values_of(host.subblock_inputs.deep_view(), host.subblock_outputs.deep_view()),
        ),
{
    let pv = public_values(host);
    let mut stdin = ProgramStdin::new();
    stdin.write_frame_list(&pv);
    stdin.write_digest(vk_digest);
    stdin.write_slice(host.agg_input.as_slice());
    stdin.write_slice(host.parent_state_root.as_slice());
    assert(stdin.frames() =~= aggregation_frames(*host, vk_digest@));
    stdin
}

/// Builds the aggregation program's input and hands it the subblock proofs.
pub fn aggregation_stdin_with_proofs<P>(
    host: &EncodedHostOutput,
    vk_digest: &[u32; 8],
    proofs: Vec<P>,
) -> (stdin: ProgramStdin<P>)
    requires
        host.outputs_match(),
    ensures
        stdin.frames() == aggregation_frames(*host, vk_digest@),
        stdin.proofs@ == proofs@,
        lengths_fit(
            public_values_of(host.subblock_inputs.deep_view(), host.subblock_outputs.deep_view()),
        ),
{
    let mut stdin = to_aggregation_stdin(host, vk_digest);
    stdin.write_proofs(proofs);
    assert(stdin.proofs@ =~= proofs@);
    stdin
}

/// Builds the input of subblock `i`.
pub fn subblock_stdin<P>(host: &EncodedHostOutput, i: usize) -> (stdin: ProgramStdin<P>)
    requires
        i < host.subblock_inputs@.len(),
        i < host.subblock_parent_states@.len(),
    ensures
        stdin.frames() == subblock_frames(*host, i as int),
        stdin.frames().len() == 2,
        stdin.frames()[0] == host.subblock_inputs@[i as int]@,
        stdin.frames()[1] == host.subblock_parent_states@[i as int]@,
        stdin.proofs@ == Seq::<P>::empty(),
{
    let mut stdin = ProgramStdin::new();
    stdin.write_slice(host.subblock_inputs[i].as_slice());
    stdin.write_slice(host.subblock_parent_states[i].as_slice());
    assert(stdin.frames() =~= subblock_frames(*host, i as int));
    proof {
        lemma_subblock_frames_own_index(*host, i as int);
    }
    stdin
}

/// A file to write: where, and with what contents.
pub struct OutputFile {
    pub path: String,
    pub contents: Vec<u8>,
}

/// The files holding the aggregation input's parts, for inspection outside
/// the host: `public_values.bin`, `vk_digest.bin`, `agg_input.bin` and
/// `state_root.bin` in `out_dir`, each holding the encoding of its part.
/// `agg_input` and `parent_state_root` are given already encoded.
pub fn aggregation_dump_files(
    out_dir: &str,
    public_values: &Vec<Vec<u8>>,
    vk_digest: &[u32; 8],
    agg_input: &Vec<u8>,
    parent_state_root: &Vec<u8>,
) -> (files: Vec<OutputFile>)
    ensures
        files@.len() == 4,
        files@[0].path@ == join_spec(out_dir@, "public_values.bin"@),
        files@[1].path@ == join_spec(out_dir@, "vk_digest.bin"@),
        files@[2].path@ == join_spec(out_dir@, "agg_input.bin"@),
        files@[3].path@ == join_spec(out_dir@, "state_root.bin"@),
        forall|k: int|
            0 <= k < 4 ==> #[trigger] files@[k].contents@ == aggregation_parts(
                public_values.deep_view(),
                vk_digest@,
                agg_input@,
                parent_state_root@,
            )[k],
{
    let mut files: Vec<OutputFile> = Vec::new();
    files.push(
        OutputFile {
            path: join_path(out_dir, "public_values.bin"),
            contents: encode_frames(public_values),
        },
    );
    files.push(
        OutputFile { path: join_path(out_dir, "vk_digest.bin"), contents: encode_digest(vk_digest) },
    );
    files.push(
        OutputFile {
            path: join_path(out_dir, "agg_input.bin"),
            contents: slice_to_vec(agg_input.as_slice()),
        },
    );
    files.push(
        OutputFile {
            path: join_path(out_dir, "state_root.bin"),
            contents: slice_to_vec(parent_state_root.as_slice()),
        },
    );
    files
}

} // verus!
