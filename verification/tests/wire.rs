use rusty_chat::frame::{decode_header, MSG_SIZE_BYTES};
use rusty_chat::message::{
    LoginMsg, MsgDataType, MsgType, ServerMsg, ServerRes, TokenMsg, UserMsg,
};
use rusty_chat::wire::{decode_msg, decode_msg_type, encode_body, encode_msg_type, ProtocolError};

fn text(s: &str) -> MsgDataType {
    MsgDataType::Text(s.to_string())
}

fn login(username: &str, password: &str) -> LoginMsg {
    LoginMsg { username: username.to_string(), password: password.to_string() }
}

fn every_kind_of_message() -> Vec<MsgType> {
    vec![
        MsgType::MsgIn(ServerMsg { username: "alice".to_string(), data: text("hi") }),
        MsgType::MsgIn(ServerMsg {
            username: "bob".to_string(),
            data: MsgDataType::Image(vec![0, 1, 2, 254, 255]),
        }),
        MsgType::MsgOut(UserMsg {
            username: "alice".to_string(),
            data: text("hello there"),
            token: "a.b.c".to_string(),
        }),
        MsgType::MsgOut(UserMsg {
            username: String::new(),
            data: MsgDataType::Image(Vec::new()),
            token: String::new(),
        }),
        MsgType::Login(login("alice", "pw")),
        MsgType::Signup(login("zoë", "pässwörd ✓")),
        MsgType::Server(ServerRes::Error("User already exist!.".to_string())),
        MsgType::Server(ServerRes::UserToken(TokenMsg {
            token: "tok".to_string(),
            username: "alice".to_string(),
        })),
        MsgType::Server(ServerRes::UserCreated),
        MsgType::MsgIn(ServerMsg { username: "x".repeat(300), data: text(&"y".repeat(70_000)) }),
    ]
}

#[test]
fn decoding_an_encoded_message_gives_it_back() {
    for msg in every_kind_of_message() {
        let body = encode_body(&msg);
        assert_eq!(decode_msg_type(&body), Ok(msg));
    }
}

#[test]
fn frame_is_prefix_and_body() {
    for msg in every_kind_of_message() {
        let frame = encode_msg_type(&msg);
        let body = encode_body(&msg);
        assert_eq!(decode_header(&frame) as usize, body.len());
        assert_eq!(&frame[MSG_SIZE_BYTES..], &body[..]);
        assert_eq!(decode_msg_type(&frame[MSG_SIZE_BYTES..].to_vec()), Ok(msg));
    }
}

#[test]
fn bytes_of_a_login() {
    let msg = MsgType::Login(login("alice", "pw"));
    assert_eq!(
        encode_body(&msg),
        vec![2, 5, b'a', b'l', b'i', b'c', b'e', 2, b'p', b'w']
    );
    assert_eq!(
        encode_msg_type(&msg),
        vec![10, 0, 0, 0, 2, 5, b'a', b'l', b'i', b'c', b'e', 2, b'p', b'w']
    );
}

#[test]
fn bytes_of_a_signup() {
    let msg = MsgType::Signup(login("a", ""));
    assert_eq!(encode_body(&msg), vec![3, 1, b'a', 0]);
}

#[test]
fn bytes_of_a_chat_message() {
    let out = MsgType::MsgOut(UserMsg {
        username: "al".to_string(),
        data: text("hi"),
        token: "T".to_string(),
    });
    assert_eq!(encode_body(&out), vec![1, 2, b'a', b'l', 0, 2, b'h', b'i', 1, b'T']);
    let relayed = MsgType::MsgIn(ServerMsg {
        username: "al".to_string(),
        data: MsgDataType::Image(vec![7, 8, 9]),
    });
    assert_eq!(encode_body(&relayed), vec![0, 2, b'a', b'l', 1, 3, 7, 8, 9]);
}

#[test]
fn bytes_of_the_responses() {
    assert_eq!(encode_body(&MsgType::Server(ServerRes::UserCreated)), vec![4, 2]);
    assert_eq!(
        encode_body(&MsgType::Server(ServerRes::Error("no".to_string()))),
        vec![4, 0, 2, b'n', b'o']
    );
    assert_eq!(
        encode_body(&MsgType::Server(ServerRes::UserToken(TokenMsg {
            token: "t".to_string(),
            username: "u".to_string(),
        }))),
        vec![4, 1, 1, b't', 1, b'u']
    );
}

#[test]
fn text_is_written_as_utf8_with_its_length_in_bytes() {
    let msg = MsgType::Server(ServerRes::Error("é✓".to_string()));
    assert_eq!(encode_body(&msg), vec![4, 0, 5, 0xc3, 0xa9, 0xe2, 0x9c, 0x93]);
}

#[test]
fn long_text_has_a_length_of_several_bytes() {
    let msg = MsgType::Server(ServerRes::Error("x".repeat(300)));
    let body = encode_body(&msg);
    assert_eq!(&body[..4], &[4, 0, 0xac, 0x02]);
    assert_eq!(body.len(), 4 + 300);
}

#[test]
fn writes_what_postcard_writes_for_the_same_fields() {
    let out = MsgType::MsgOut(UserMsg {
        username: "alice".to_string(),
        data: text("hi"),
        token: "a.b.c".to_string(),
    });
    assert_eq!(
        encode_body(&out),
        postcard::to_allocvec(&(1u32, "alice", 0u32, "hi", "a.b.c")).unwrap()
    );
    let image = MsgType::MsgIn(ServerMsg {
        username: "bob".to_string(),
        data: MsgDataType::Image(vec![1u8; 200]),
    });
    assert_eq!(
        encode_body(&image),
        postcard::to_allocvec(&(0u32, "bob", 1u32, vec![1u8; 200])).unwrap()
    );
    let token = MsgType::Server(ServerRes::UserToken(TokenMsg {
        token: "tok".to_string(),
        username: "zoë".to_string(),
    }));
    assert_eq!(encode_body(&token), postcard::to_allocvec(&(4u32, 1u32, "tok", "zoë")).unwrap());
    let creds = MsgType::Signup(login(&"n".repeat(130), "pw"));
    assert_eq!(
        encode_body(&creds),
        postcard::to_allocvec(&(3u32, "n".repeat(130), "pw")).unwrap()
    );
}

#[test]
fn reads_what_postcard_wrote() {
    let body = postcard::to_allocvec(&(2u32, "alice", "pw")).unwrap();
    assert_eq!(decode_msg_type(&body), Ok(MsgType::Login(login("alice", "pw"))));
    let body = postcard::to_allocvec(&(4u32, 2u32)).unwrap();
    assert_eq!(decode_msg_type(&body), Ok(MsgType::Server(ServerRes::UserCreated)));
    let body = postcard::to_allocvec(&(0u32, "bob", 1u32, vec![5u8, 6, 7])).unwrap();
    assert_eq!(
        decode_msg_type(&body),
        Ok(MsgType::MsgIn(ServerMsg {
            username: "bob".to_string(),
            data: MsgDataType::Image(vec![5, 6, 7]),
        }))
    );
}

#[test]
fn postcard_reads_what_was_written() {
    let body = encode_body(&MsgType::MsgOut(UserMsg {
        username: "alice".to_string(),
        data: text("hi"),
        token: "tok".to_string(),
    }));
    let fields: (u32, String, u32, String, String) = postcard::from_bytes(&body).unwrap();
    assert_eq!(
        fields,
        (1, "alice".to_string(), 0, "hi".to_string(), "tok".to_string())
    );
}

#[test]
fn an_empty_body_is_no_message() {
    assert_eq!(decode_msg_type(&Vec::new()), Err(ProtocolError));
}

#[test]
fn a_body_that_ends_too_early_is_no_message() {
    for msg in every_kind_of_message() {
        let body = encode_body(&msg);
        for cut in 0..body.len().min(40) {
            assert_eq!(decode_msg_type(&body[..cut].to_vec()), Err(ProtocolError));
        }
        assert_eq!(decode_msg_type(&body[..body.len() - 1].to_vec()), Err(ProtocolError));
    }
}

#[test]
fn an_unknown_variant_is_no_message() {
    assert_eq!(decode_msg_type(&vec![5]), Err(ProtocolError));
    assert_eq!(decode_msg_type(&vec![5, 1, b'a', 1, b'b']), Err(ProtocolError));
    assert_eq!(decode_msg_type(&vec![0xff, 0xff, 0xff, 0xff, 0x0f]), Err(ProtocolError));
    // unknown response
    assert_eq!(decode_msg_type(&vec![4, 3]), Err(ProtocolError));
    // unknown payload
    assert_eq!(decode_msg_type(&vec![0, 1, b'a', 2, 1, b'x']), Err(ProtocolError));
}

#[test]
fn text_that_is_not_utf8_is_no_message() {
    assert_eq!(decode_msg_type(&vec![2, 1, 0xff, 1, b'b']), Err(ProtocolError));
    assert_eq!(decode_msg_type(&vec![2, 2, 0xc3, 0x28, 1, b'b']), Err(ProtocolError));
    // the same bytes are fine as an image
    assert_eq!(
        decode_msg_type(&vec![0, 1, b'a', 1, 2, 0xc3, 0x28]),
        Ok(MsgType::MsgIn(ServerMsg {
            username: "a".to_string(),
            data: MsgDataType::Image(vec![0xc3, 0x28]),
        }))
    );
}

#[test]
fn a_length_beyond_the_body_is_no_message() {
    assert_eq!(decode_msg_type(&vec![2, 200, 1, b'a']), Err(ProtocolError));
    assert_eq!(
        decode_msg_type(&vec![2, 0xff, 0xff, 0xff, 0xff, 0xff, 0xff, 0xff, 0xff, 0xff, 0x01]),
        Err(ProtocolError)
    );
}

#[test]
fn bytes_behind_the_message_are_ignored() {
    let mut body = encode_body(&MsgType::Login(login("alice", "pw")));
    body.extend_from_slice(&[1, 2, 3]);
    assert_eq!(decode_msg_type(&body), Ok(MsgType::Login(login("alice", "pw"))));
    assert_eq!(decode_msg_type(&vec![4, 2, 0xff]), Ok(MsgType::Server(ServerRes::UserCreated)));
}

#[test]
fn agrees_with_postcard_on_what_is_a_login() {
    let samples: [&[u8]; 8] = [
        &[2, 1, b'a', 1, b'b'],
        &[2, 1, b'a', 1],
        &[2, 0x81, 0x00, b'a', 0],
        &[2, 1, 0xff, 0],
        &[2, 0, 0],
        &[2, 0, 0, 9, 9],
        &[2, 3, b'a', b'b'],
        &[2],
    ];
    for body in samples {
        let theirs = postcard::from_bytes::<(u32, String, String)>(body).ok();
        let ours = decode_msg_type(&body.to_vec()).ok();
        match (ours, theirs) {
            (Some(MsgType::Login(creds)), Some((2, username, password))) => {
                assert_eq!(creds, LoginMsg { username, password });
            }
            (None, None) => {}
            other => panic!("disagreement on {:?}: {:?}", body, other),
        }
    }
}

#[test]
fn decode_msg_hands_out_relayed_chat_messages_only() {
    let relayed = ServerMsg { username: "alice".to_string(), data: text("hi") };
    let body = encode_body(&MsgType::MsgIn(relayed.clone()));
    assert_eq!(decode_msg(&body), Some(relayed));
    for msg in every_kind_of_message() {
        let body = encode_body(&msg);
        match msg {
            MsgType::MsgIn(inner) => assert_eq!(decode_msg(&body), Some(inner)),
            _ => assert_eq!(decode_msg(&body), None),
        }
    }
    assert_eq!(decode_msg(&vec![0, 1]), None);
    assert_eq!(decode_msg(&Vec::new()), None);
}

/// A small generator of repeatable pseudo-random numbers.
fn next(seed: &mut u64) -> u64 {
    *seed = seed.wrapping_mul(6364136223846793005).wrapping_add(1442695040888963407);
    *seed >> 33
}

fn some_bytes(seed: &mut u64, len: usize) -> Vec<u8> {
    (0..len).map(|_| next(seed) as u8).collect()
}

fn some_text(seed: &mut u64, len: usize) -> String {
    let letters = ['a', 'Z', '0', ' ', 'é', 'ß', '✓', '語', '🙂', '\n', '\0'];
    (0..len).map(|_| letters[next(seed) as usize % letters.len()]).collect()
}

#[test]
fn agrees_with_postcard_on_many_messages() {
    let mut seed = 7;
    for round in 0..300 {
        let username = some_text(&mut seed, round % 40);
        let token = some_text(&mut seed, (round * 7) % 200);
        let line = some_text(&mut seed, (round * 13) % 300);
        let image = some_bytes(&mut seed, (round * 31) % 500);

        let chat = MsgType::MsgOut(UserMsg {
            username: username.clone(),
            data: text(&line),
            token: token.clone(),
        });
        let bytes = encode_body(&chat);
        assert_eq!(bytes, postcard::to_allocvec(&(1u32, &username, 0u32, &line, &token)).unwrap());
        assert_eq!(decode_msg_type(&bytes), Ok(chat));

        let picture = MsgType::MsgIn(ServerMsg {
            username: username.clone(),
            data: MsgDataType::Image(image.clone()),
        });
        let bytes = encode_body(&picture);
        assert_eq!(bytes, postcard::to_allocvec(&(0u32, &username, 1u32, &image)).unwrap());
        assert_eq!(decode_msg_type(&bytes), Ok(picture));

        let answer = MsgType::Server(ServerRes::UserToken(TokenMsg {
            token: token.clone(),
            username: username.clone(),
        }));
        let bytes = encode_body(&answer);
        assert_eq!(bytes, postcard::to_allocvec(&(4u32, 1u32, &token, &username)).unwrap());
        assert_eq!(decode_msg_type(&bytes), Ok(answer));
    }
}

#[test]
fn agrees_with_postcard_on_many_bodies_that_may_be_no_message() {
    let mut seed = 99;
    let mut accepted = 0;
    for round in 0..4000 {
        let mut body = vec![2u8];
        // mostly short lengths, so that a fair share of the bodies are logins
        let first = next(&mut seed) as usize % 6;
        body.push(first as u8);
        body.extend(some_bytes(&mut seed, first).iter().map(|b| b % 0x90));
        let second = next(&mut seed) as usize % 6;
        body.push(second as u8);
        body.extend(some_bytes(&mut seed, (second + round % 2).saturating_sub(round % 3)));
        let theirs = postcard::from_bytes::<(u32, String, String)>(&body).ok();
        let ours = decode_msg_type(&body).ok();
        match (ours, theirs) {
            (Some(MsgType::Login(creds)), Some((2, username, password))) => {
                assert_eq!(creds, LoginMsg { username, password });
                accepted += 1;
            }
            (None, None) => {}
            other => panic!("disagreement on {:?}: {:?}", body, other),
        }
    }
    assert!(accepted > 100);
}
