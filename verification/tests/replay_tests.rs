use ropebench::replay::{replay, Patch, ReplayError, Trace, Transaction};
use ropebench::rope::Rope;
use ropebench::vecrope::{Utf8Rope, VecRope};
use ropebench::xi_rope_rope::XiRope;

fn patch(pos: usize, del: usize, ins: &str) -> Patch {
    Patch { pos, del, ins: ins.to_string() }
}

fn hello_world_trace() -> Trace {
    Trace {
        start_content: "hello".to_string(),
        txns: vec![Transaction { patches: vec![patch(5, 0, ", world")] }],
        end_content: "hello, world".to_string(),
    }
}

fn replay_hello_world<R: Rope>() {
    let r: R = replay(&hello_world_trace()).unwrap();
    assert_eq!(r.to_text(), "hello, world");
    // "hello, world" is ASCII, so the length is 12 in either unit
    assert_eq!(r.len(), 12);
}

#[test]
fn hello_world_replays_on_every_candidate() {
    replay_hello_world::<VecRope>();
    replay_hello_world::<Utf8Rope>();
    replay_hello_world::<String>();
    replay_hello_world::<crop::Rope>();
    replay_hello_world::<jumprope::JumpRope>();
    replay_hello_world::<jumprope::JumpRopeBuf>();
    replay_hello_world::<ropey::Rope>();
    replay_hello_world::<XiRope>();
}

fn multibyte_trace() -> Trace {
    // positions and lengths are recorded in codepoints:
    // "héllo" -> delete "éll" at 1, insert "EY" -> "hEYo",
    // then a second transaction appends "!" at 4.
    Trace {
        start_content: "h\u{e9}llo".to_string(),
        txns: vec![
            Transaction { patches: vec![patch(1, 3, "EY")] },
            Transaction { patches: vec![patch(4, 0, "!\u{e9}")] },
        ],
        end_content: "hEYo!\u{e9}".to_string(),
    }
}

#[test]
fn byte_and_codepoint_candidates_replay_to_identical_content() {
    // the raw offsets fed to each candidate differ (codepoints vs bytes),
    // but the resulting content must be byte-for-byte identical
    let by_chars: VecRope = replay(&multibyte_trace()).unwrap();
    let by_bytes: Utf8Rope = replay(&multibyte_trace()).unwrap();
    let s1 = by_chars.to_text();
    let s2 = by_bytes.to_text();
    assert_eq!(s1, "hEYo!\u{e9}");
    assert_eq!(s1.as_bytes(), s2.as_bytes());

    let r1: ropey::Rope = replay(&multibyte_trace()).unwrap();
    let r2: String = replay(&multibyte_trace()).unwrap();
    assert_eq!(r1.to_string().as_bytes(), r2.as_bytes());
}

#[test]
fn patch_reaching_outside_the_content_is_malformed() {
    let t = Trace {
        start_content: "hello".to_string(),
        txns: vec![Transaction { patches: vec![patch(4, 3, "x")] }],
        end_content: "whatever".to_string(),
    };
    let r: Result<VecRope, ReplayError> = replay(&t);
    match r {
        Err(e) => assert_eq!(e, ReplayError::MalformedTrace),
        Ok(_) => panic!("expected a malformed-trace error"),
    }
}

#[test]
fn patch_position_past_the_end_is_malformed() {
    let t = Trace {
        start_content: "hi".to_string(),
        txns: vec![Transaction { patches: vec![patch(3, 0, "x")] }],
        end_content: "hix".to_string(),
    };
    let r: Result<String, ReplayError> = replay(&t);
    assert_eq!(r.unwrap_err(), ReplayError::MalformedTrace);
}

#[test]
fn wrong_expected_length_is_a_mismatch() {
    let t = Trace {
        start_content: "hello".to_string(),
        txns: vec![Transaction { patches: vec![patch(5, 0, "!")] }],
        end_content: "hello".to_string(),
    };
    let r: Result<VecRope, ReplayError> = replay(&t);
    match r {
        Err(e) => assert_eq!(e, ReplayError::LengthMismatch),
        Ok(_) => panic!("expected a length-mismatch error"),
    }
    let r: Result<Utf8Rope, ReplayError> = replay(&t);
    match r {
        Err(e) => assert_eq!(e, ReplayError::LengthMismatch),
        Ok(_) => panic!("expected a length-mismatch error"),
    }
}

#[test]
fn empty_transactions_and_patches_are_noops() {
    let t = Trace {
        start_content: "abc".to_string(),
        txns: vec![
            Transaction { patches: vec![] },
            Transaction { patches: vec![patch(1, 0, ""), patch(0, 0, "")] },
        ],
        end_content: "abc".to_string(),
    };
    let r: VecRope = replay(&t).unwrap();
    assert_eq!(r.to_text(), "abc");
}

#[test]
fn patches_apply_in_recorded_order_within_a_transaction() {
    // the second patch's offsets assume the first has already been applied
    let t = Trace {
        start_content: "abcd".to_string(),
        txns: vec![Transaction { patches: vec![patch(0, 0, "xx"), patch(3, 2, "Y")] }],
        end_content: "xxaYd".to_string(),
    };
    let r: VecRope = replay(&t).unwrap();
    assert_eq!(r.to_text(), "xxaYd");
}

#[test]
fn each_replay_rebuilds_from_start_content() {
    let t = hello_world_trace();
    let first: VecRope = replay(&t).unwrap();
    let second: VecRope = replay(&t).unwrap();
    assert_eq!(first.to_text(), second.to_text());
}
