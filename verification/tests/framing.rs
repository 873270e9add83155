use subblock_host::aggregation::{
    aggregation_dump_files, aggregation_stdin_with_proofs, public_values, subblock_stdin,
    to_aggregation_stdin, EncodedHostOutput,
};
use subblock_host::encoding::{encode_digest, encode_frames};
use subblock_host::stdin::ProgramStdin;

fn host_output() -> EncodedHostOutput {
    EncodedHostOutput {
        subblock_inputs: vec![vec![1, 2, 3], vec![4]],
        subblock_outputs: vec![vec![9], vec![8, 7]],
        subblock_parent_states: vec![vec![0xaa, 0xbb], vec![0xcc]],
        agg_input: vec![5, 5, 5],
        parent_state_root: vec![0x11; 32],
    }
}

fn le64(n: u64) -> Vec<u8> {
    n.to_le_bytes().to_vec()
}

#[test]
fn frame_list_encoding_is_length_prefixed() {
    let frames = vec![vec![1u8, 2], vec![]];
    let mut expected = le64(2);
    expected.extend(le64(2));
    expected.extend([1, 2]);
    expected.extend(le64(0));
    assert_eq!(encode_frames(&frames), expected);
}

#[test]
fn frame_list_encoding_matches_bincode() {
    let frames = vec![vec![1u8, 2, 3], vec![], vec![255; 300]];
    assert_eq!(encode_frames(&frames), bincode::serialize(&frames).unwrap());
    let empty: Vec<Vec<u8>> = vec![];
    assert_eq!(encode_frames(&empty), le64(0));
}

#[test]
fn digest_encoding_is_little_endian_words() {
    let words = [1u32, 2, 3, 4, 5, 6, 7, 0x0102_0304];
    let bytes = encode_digest(&words);
    assert_eq!(bytes.len(), 32);
    assert_eq!(&bytes[0..4], &[1, 0, 0, 0]);
    assert_eq!(&bytes[28..32], &[4, 3, 2, 1]);
    assert_eq!(bytes, bincode::serialize(&words).unwrap());
}

#[test]
fn stdin_keeps_frames_in_order() {
    let mut stdin: ProgramStdin<u8> = ProgramStdin::new();
    stdin.write_vec(vec![1]);
    stdin.write_slice(&[2, 3]);
    stdin.write_proof(7);
    stdin.write_proofs(vec![8, 9]);
    assert_eq!(stdin.buffer, vec![vec![1], vec![2, 3]]);
    assert_eq!(stdin.proofs, vec![7, 8, 9]);
}

#[test]
fn public_values_concatenate_input_and_output() {
    assert_eq!(public_values(&host_output()), vec![vec![1, 2, 3, 9], vec![4, 8, 7]]);
}

#[test]
fn aggregation_stdin_frames() {
    let host = host_output();
    let vk = [10u32, 20, 30, 40, 50, 60, 70, 80];
    let stdin: ProgramStdin<()> = to_aggregation_stdin(&host, &vk);
    assert_eq!(stdin.buffer.len(), 4);
    assert_eq!(
        stdin.buffer[0],
        bincode::serialize(&vec![vec![1u8, 2, 3, 9], vec![4, 8, 7]]).unwrap()
    );
    assert_eq!(stdin.buffer[1], bincode::serialize(&vk).unwrap());
    assert_eq!(stdin.buffer[2], vec![5, 5, 5]);
    assert_eq!(stdin.buffer[3], vec![0x11; 32]);
    assert!(stdin.proofs.is_empty());
}

#[test]
fn aggregation_stdin_carries_the_proofs() {
    let host = host_output();
    let vk = [0u32; 8];
    let stdin = aggregation_stdin_with_proofs(&host, &vk, vec!["p0", "p1"]);
    assert_eq!(stdin.buffer.len(), 4);
    assert_eq!(stdin.proofs, vec!["p0", "p1"]);
}

#[test]
fn subblock_stdin_frames() {
    let host = host_output();
    let stdin: ProgramStdin<()> = subblock_stdin(&host, 1);
    assert_eq!(stdin.buffer, vec![vec![4], vec![0xcc]]);
}

#[test]
fn dump_files_hold_each_part() {
    let pv = vec![vec![1u8], vec![2, 3]];
    let vk = [1u32; 8];
    let files = aggregation_dump_files("out", &pv, &vk, &vec![7], &vec![8, 8]);
    let paths: Vec<&str> = files.iter().map(|f| f.path.as_str()).collect();
    assert_eq!(
        paths,
        vec!["out/public_values.bin", "out/vk_digest.bin", "out/agg_input.bin", "out/state_root.bin"]
    );
    assert_eq!(files[0].contents, bincode::serialize(&pv).unwrap());
    assert_eq!(files[1].contents, bincode::serialize(&vk).unwrap());
    assert_eq!(files[2].contents, vec![7]);
    assert_eq!(files[3].contents, vec![8, 8]);
}

#[test]
fn different_frame_lists_encode_differently() {
    let a = vec![vec![1u8, 2], vec![3]];
    let b = vec![vec![1u8], vec![2, 3]];
    let c = vec![vec![1u8, 2, 3]];
    assert_ne!(encode_frames(&a), encode_frames(&b));
    assert_ne!(encode_frames(&a), encode_frames(&c));
    assert_ne!(encode_frames(&b), encode_frames(&c));
}

#[test]
fn different_digests_encode_differently() {
    let a = [1u32, 0, 0, 0, 0, 0, 0, 0];
    let b = [256u32, 0, 0, 0, 0, 0, 0, 0];
    assert_ne!(encode_digest(&a), encode_digest(&b));
}

#[test]
fn aggregation_stdin_ignores_parent_states() {
    let a = host_output();
    let mut b = host_output();
    b.subblock_parent_states = vec![vec![], vec![1, 2, 3, 4]];
    let vk = [3u32; 8];
    let sa: ProgramStdin<()> = to_aggregation_stdin(&a, &vk);
    let sb: ProgramStdin<()> = to_aggregation_stdin(&b, &vk);
    assert_eq!(sa.buffer, sb.buffer);
}
