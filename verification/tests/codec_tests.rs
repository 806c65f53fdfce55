use voting_program::codec::is_valid_utf8;
use voting_program::entrypoint::show;
use voting_program::errors::VoteProgramError;
use voting_program::instruction::{decode_instruction, VotingProgramInstruction};
use voting_program::state::{VotingAccount, VotingOption};

fn sample_poll() -> VotingAccount {
    VotingAccount {
        uid: b"poll1".to_vec(),
        voting_name: b"My poll".to_vec(),
        start_date: 1000,
        end_date: 4600,
        voting_options: vec![
            VotingOption { counter: 0, option_id: 1, option_description: b"Yes".to_vec() },
            VotingOption { counter: 0, option_id: 2, option_description: b"No".to_vec() },
        ],
    }
}

#[test]
fn round_trip_poll() {
    let poll = sample_poll();
    let bytes = poll.encode();
    let back = VotingAccount::decode(&bytes).expect("decode of a fresh encoding");
    assert_eq!(back, poll);
}

#[test]
fn exact_size_matches_encoding_length() {
    let poll = sample_poll();
    let bytes = poll.encode();
    assert_eq!(poll.exact_size(), bytes.len());
    assert_eq!(poll.exact_size(), 63);
}

#[test]
fn encoding_layout_is_exact() {
    let poll = VotingAccount {
        uid: b"a".to_vec(),
        voting_name: b"b".to_vec(),
        start_date: 1,
        end_date: 2,
        voting_options: vec![VotingOption {
            counter: 0,
            option_id: 3,
            option_description: b"c".to_vec(),
        }],
    };
    let expected: Vec<u8> = vec![
        1, 0, 0, 0, 97, // uid "a"
        1, 0, 0, 0, 98, // name "b"
        1, 0, 0, 0, 0, 0, 0, 0, // start 1
        2, 0, 0, 0, 0, 0, 0, 0, // end 2
        1, 0, 0, 0, // one option
        0, 0, 0, 0, 3, 1, 0, 0, 0, 99, // counter 0, id 3, description "c"
    ];
    assert_eq!(poll.encode(), expected);
}

#[test]
fn encoding_agrees_with_reference_serializer() {
    let poll = sample_poll();
    let reference = borsh::to_vec(&(
        "poll1".to_string(),
        "My poll".to_string(),
        1000i64,
        4600i64,
        vec![(0u32, 1u8, "Yes".to_string()), (0u32, 2u8, "No".to_string())],
    ))
    .unwrap();
    assert_eq!(poll.encode(), reference);
}

#[test]
fn encode_into_overwrites_sized_buffer() {
    let poll = sample_poll();
    let mut buffer: Vec<u8> = vec![0xAA; poll.exact_size()];
    poll.encode_into(&mut buffer);
    assert_eq!(buffer, poll.encode());
}

#[test]
fn decode_rejects_truncation() {
    let poll = sample_poll();
    let mut bytes = poll.encode();
    bytes.pop();
    assert_eq!(VotingAccount::decode(&bytes), Err(VoteProgramError::MalformedInput));
    assert_eq!(VotingAccount::decode(&vec![]), Err(VoteProgramError::MalformedInput));
}

#[test]
fn decode_rejects_trailing_garbage() {
    let poll = sample_poll();
    let mut bytes = poll.encode();
    bytes.push(0);
    assert_eq!(VotingAccount::decode(&bytes), Err(VoteProgramError::MalformedInput));
}

#[test]
fn decode_rejects_overlong_length_prefix() {
    // Claims a 200-byte identifier but carries only four bytes after it.
    let bytes: Vec<u8> = vec![200, 0, 0, 0, 1, 2, 3, 4];
    assert_eq!(VotingAccount::decode(&bytes), Err(VoteProgramError::MalformedInput));
}

#[test]
fn decode_rejects_invalid_utf8_strings() {
    let poll = sample_poll();
    let mut bytes = poll.encode();
    // Corrupt the first byte of the identifier into a lone continuation byte.
    bytes[4] = 0x80;
    assert_eq!(VotingAccount::decode(&bytes), Err(VoteProgramError::MalformedInput));
    // The same corruption in a create instruction is rejected too.
    let mut wire: Vec<u8> = vec![0];
    wire.extend_from_slice(&bytes);
    assert_eq!(decode_instruction(&wire), Err(VoteProgramError::MalformedInput));
}

#[test]
fn utf8_validity_is_exact() {
    assert!(is_valid_utf8(&"pöll Ω 𝄞".as_bytes().to_vec()));
    assert!(is_valid_utf8(&vec![]));
    assert!(!is_valid_utf8(&vec![0x80])); // lone continuation byte
    assert!(!is_valid_utf8(&vec![0xC0, 0xAF])); // overlong encoding
    assert!(!is_valid_utf8(&vec![0xED, 0xA0, 0x80])); // surrogate
    assert!(!is_valid_utf8(&vec![0xF5, 0x80, 0x80, 0x80])); // past U+10FFFF
    assert!(!is_valid_utf8(&vec![0xE2, 0x82])); // truncated sequence
}

#[test]
fn multibyte_strings_round_trip_and_match_reference() {
    let poll = VotingAccount {
        uid: "pöll".as_bytes().to_vec(),
        voting_name: "Abstimmung 𝄞".as_bytes().to_vec(),
        start_date: 1000,
        end_date: 4600,
        voting_options: vec![VotingOption {
            counter: 0,
            option_id: 1,
            option_description: "Ja ✓".as_bytes().to_vec(),
        }],
    };
    let bytes = poll.encode();
    assert_eq!(VotingAccount::decode(&bytes).unwrap(), poll);
    let reference = borsh::to_vec(&(
        "pöll".to_string(),
        "Abstimmung 𝄞".to_string(),
        1000i64,
        4600i64,
        vec![(0u32, 1u8, "Ja ✓".to_string())],
    ))
    .unwrap();
    assert_eq!(bytes, reference);
}

#[test]
fn instruction_round_trip_create() {
    let poll = sample_poll();
    let mut wire: Vec<u8> = vec![0];
    wire.extend_from_slice(&poll.encode());
    let decoded = decode_instruction(&wire).expect("create instruction decodes");
    match decoded {
        VotingProgramInstruction::CreateVoting {
            voting_uid,
            voting_name,
            start_date,
            end_date,
            voting_options,
        } => {
            assert_eq!(voting_uid, b"poll1".to_vec());
            assert_eq!(voting_name, b"My poll".to_vec());
            assert_eq!(start_date, 1000);
            assert_eq!(end_date, 4600);
            assert_eq!(voting_options.len(), 2);
            assert_eq!(voting_options[0].id, 1);
            assert_eq!(voting_options[0].description, b"Yes".to_vec());
            assert_eq!(voting_options[1].id, 2);
            assert_eq!(voting_options[1].description, b"No".to_vec());
        },
        other => panic!("expected CreateVoting, got {:?}", other),
    }
}

#[test]
fn instruction_decode_vote() {
    let decoded = decode_instruction(&vec![1, 7]).expect("vote instruction decodes");
    assert_eq!(decoded, VotingProgramInstruction::Vote { voting_option_id: 7 });
}

#[test]
fn instruction_decode_rejects_bad_input() {
    assert_eq!(decode_instruction(&vec![]), Err(VoteProgramError::MalformedInput));
    assert_eq!(decode_instruction(&vec![2, 7]), Err(VoteProgramError::MalformedInput));
    assert_eq!(decode_instruction(&vec![1]), Err(VoteProgramError::MalformedInput));
    assert_eq!(decode_instruction(&vec![1, 7, 9]), Err(VoteProgramError::MalformedInput));
    assert_eq!(decode_instruction(&vec![0, 1, 2]), Err(VoteProgramError::MalformedInput));
}

#[test]
fn show_escapes_bytes() {
    assert_eq!(show(&vec![97, 98, 10, 255]), "ab\\n\\xff".to_string());
    assert_eq!(show(&vec![9, 13, 92, 39, 34]), "\\t\\r\\\\\\'\\\"".to_string());
    assert_eq!(show(&vec![0, 31, 127]), "\\x00\\x1f\\x7f".to_string());
    assert_eq!(show(&vec![]), "".to_string());
}
