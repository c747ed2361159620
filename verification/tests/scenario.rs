use rusty_chat::actor::{Action, Actor, ActorEvent};
use rusty_chat::frame::{decode_header, MSG_SIZE_BYTES};
use rusty_chat::hub::Hub;
use rusty_chat::message::{
    LoginMsg, MsgDataType, MsgType, ServerMsg, ServerRes, TokenMsg, UserMsg,
};
use rusty_chat::store::UserTable;
use rusty_chat::auth::verify_token;
use rusty_chat::wire::{decode_msg_type, encode_msg_type};

const SECRET: &str = "SECRETO";

/// A relay in one thread: the hub, the user table, and per connection the
/// actor and what was written to its socket.
struct Relay {
    hub: Hub,
    table: UserTable,
    actors: Vec<Actor>,
    sockets: Vec<Vec<u8>>,
}

fn relay() -> Relay {
    Relay { hub: Hub::new(32), table: UserTable::new(), actors: Vec::new(), sockets: Vec::new() }
}

fn connect(relay: &mut Relay) -> usize {
    let id = relay.hub.subscribe().unwrap();
    relay.actors.push(Actor::new(id, u32::MAX));
    relay.sockets.push(Vec::new());
    relay.actors.len() - 1
}

/// Does what the actor of connection `conn` asks for, until it asks for
/// nothing more.
fn perform(relay: &mut Relay, conn: usize, action: Action) {
    let mut action = action;
    loop {
        let event = match action {
            Action::Wait | Action::Close | Action::ReadBody(_) => return,
            Action::Publish(event) => {
                relay.hub.publish(&event);
                return;
            }
            Action::Write(frame) => {
                relay.sockets[conn].extend_from_slice(&frame);
                return;
            }
            Action::FindUser(name) => ActorEvent::Lookup(relay.table.find_by_username(&name)),
            Action::CreateUser { name, password_hash } => {
                ActorEvent::Insert(relay.table.create_user(name, password_hash))
            }
        };
        action = relay.actors[conn].step(event, SECRET);
    }
}

/// Lets every connection take in what the hub holds for it.
fn deliver(relay: &mut Relay) {
    for conn in 0..relay.actors.len() {
        let id = relay.actors[conn].id();
        while let Some(event) = relay.hub.receive(id) {
            let action = relay.actors[conn].step(ActorEvent::Hub(event), SECRET);
            perform(relay, conn, action);
        }
    }
}

/// The client of connection `conn` sends a message.
fn client_sends(relay: &mut Relay, conn: usize, msg: &MsgType) {
    let frame = encode_msg_type(msg);
    let mut header = [0u8; 4];
    header.copy_from_slice(&frame[..MSG_SIZE_BYTES]);
    let action = relay.actors[conn].step(ActorEvent::Header(header), SECRET);
    assert_eq!(action, Action::ReadBody((frame.len() - MSG_SIZE_BYTES) as u32));
    let action =
        relay.actors[conn].step(ActorEvent::Body(frame[MSG_SIZE_BYTES..].to_vec()), SECRET);
    perform(relay, conn, action);
    deliver(relay);
}

/// The messages that the client of connection `conn` has received since it
/// last looked.
fn client_receives(relay: &mut Relay, conn: usize) -> Vec<MsgType> {
    let data = std::mem::take(&mut relay.sockets[conn]);
    let mut messages = Vec::new();
    let mut at = 0;
    while at < data.len() {
        let len = decode_header(&data[at..]) as usize;
        let body = data[at + MSG_SIZE_BYTES..at + MSG_SIZE_BYTES + len].to_vec();
        messages.push(decode_msg_type(&body).unwrap());
        at += MSG_SIZE_BYTES + len;
    }
    messages
}

fn creds(username: &str, password: &str) -> LoginMsg {
    LoginMsg { username: username.to_string(), password: password.to_string() }
}

fn chat(username: &str, text: &str, token: &str) -> MsgType {
    MsgType::MsgOut(UserMsg {
        username: username.to_string(),
        data: MsgDataType::Text(text.to_string()),
        token: token.to_string(),
    })
}

fn error(text: &str) -> MsgType {
    MsgType::Server(ServerRes::Error(text.to_string()))
}

fn token_in(messages: &[MsgType]) -> String {
    match messages {
        [MsgType::Server(ServerRes::UserToken(TokenMsg { token, .. }))] => token.clone(),
        other => panic!("no token in {:?}", other),
    }
}

#[test]
fn signup_login_and_chat() {
    let mut relay = relay();
    let client1 = connect(&mut relay);
    let client2 = connect(&mut relay);

    client_sends(&mut relay, client1, &MsgType::Signup(creds("alice", "pw")));
    assert_eq!(
        client_receives(&mut relay, client1),
        vec![MsgType::Server(ServerRes::UserCreated)]
    );
    assert_eq!(client_receives(&mut relay, client2), vec![]);

    client_sends(&mut relay, client1, &MsgType::Login(creds("alice", "pw")));
    let received = client_receives(&mut relay, client1);
    let token = token_in(&received);
    assert_eq!(
        received,
        vec![MsgType::Server(ServerRes::UserToken(TokenMsg {
            token: token.clone(),
            username: "alice".to_string(),
        }))]
    );
    assert_eq!(verify_token(SECRET, &token), Ok(()));
    assert_eq!(client_receives(&mut relay, client2), vec![]);

    client_sends(&mut relay, client1, &chat("alice", "hi", &token));
    assert_eq!(
        client_receives(&mut relay, client2),
        vec![MsgType::MsgIn(ServerMsg {
            username: "alice".to_string(),
            data: MsgDataType::Text("hi".to_string()),
        })]
    );
    assert_eq!(client_receives(&mut relay, client1), vec![]);
}

#[test]
fn a_second_signup_under_the_same_name_is_refused() {
    let mut relay = relay();
    let client1 = connect(&mut relay);
    let client2 = connect(&mut relay);
    client_sends(&mut relay, client1, &MsgType::Signup(creds("alice", "pw")));
    assert_eq!(
        client_receives(&mut relay, client1),
        vec![MsgType::Server(ServerRes::UserCreated)]
    );
    client_sends(&mut relay, client2, &MsgType::Signup(creds("alice", "pw")));
    assert_eq!(client_receives(&mut relay, client2), vec![error("User already exist!.")]);
    assert_eq!(client_receives(&mut relay, client1), vec![]);
    assert_eq!(relay.table.len(), 1);
}

#[test]
fn a_login_with_the_wrong_password_yields_no_token() {
    let mut relay = relay();
    let client1 = connect(&mut relay);
    let client2 = connect(&mut relay);
    client_sends(&mut relay, client1, &MsgType::Signup(creds("alice", "pw")));
    client_receives(&mut relay, client1);
    client_sends(&mut relay, client2, &MsgType::Login(creds("alice", "wrong")));
    assert_eq!(
        client_receives(&mut relay, client2),
        vec![error("The username or password are incorrect!.")]
    );
    assert_eq!(client_receives(&mut relay, client1), vec![]);
}

#[test]
fn a_login_before_any_signup_yields_no_token() {
    let mut relay = relay();
    let client1 = connect(&mut relay);
    client_sends(&mut relay, client1, &MsgType::Login(creds("alice", "pw")));
    assert_eq!(
        client_receives(&mut relay, client1),
        vec![error("The username or password are incorrect!.")]
    );
}

#[test]
fn a_forged_token_reaches_nobody_but_its_sender() {
    let mut relay = relay();
    let client1 = connect(&mut relay);
    let client2 = connect(&mut relay);
    let client3 = connect(&mut relay);
    client_sends(&mut relay, client1, &chat("alice", "hi", "eyJhbGciOiJIUzI1NiJ9.eyJpZCI6MX0.AAAA"));
    assert_eq!(client_receives(&mut relay, client1), vec![error("Msg is not signed.")]);
    assert_eq!(client_receives(&mut relay, client2), vec![]);
    assert_eq!(client_receives(&mut relay, client3), vec![]);
}

#[test]
fn a_chat_message_reaches_every_other_connection_once() {
    let mut relay = relay();
    let sender = connect(&mut relay);
    let others = [connect(&mut relay), connect(&mut relay), connect(&mut relay)];
    let token = rusty_chat::auth::issue_token(SECRET, 1).unwrap();
    client_sends(&mut relay, sender, &chat("alice", "hi", &token));
    let relayed = MsgType::MsgIn(ServerMsg {
        username: "alice".to_string(),
        data: MsgDataType::Text("hi".to_string()),
    });
    for other in others {
        assert_eq!(client_receives(&mut relay, other), vec![relayed.clone()]);
    }
    assert_eq!(client_receives(&mut relay, sender), vec![]);
}

#[test]
fn a_connection_that_joins_later_sees_only_what_follows() {
    let mut relay = relay();
    let alice = connect(&mut relay);
    let bob = connect(&mut relay);
    let token = rusty_chat::auth::issue_token(SECRET, 1).unwrap();
    client_sends(&mut relay, alice, &chat("alice", "one", &token));
    let carol = connect(&mut relay);
    client_sends(&mut relay, alice, &chat("alice", "two", &token));
    assert_eq!(client_receives(&mut relay, bob).len(), 2);
    assert_eq!(
        client_receives(&mut relay, carol),
        vec![MsgType::MsgIn(ServerMsg {
            username: "alice".to_string(),
            data: MsgDataType::Text("two".to_string()),
        })]
    );
}

#[test]
fn a_malformed_frame_closes_only_its_own_connection() {
    let mut relay = relay();
    let bad = connect(&mut relay);
    let good = connect(&mut relay);
    relay.actors[bad].step(ActorEvent::Header([3, 0, 0, 0]), SECRET);
    assert_eq!(
        relay.actors[bad].step(ActorEvent::Body(vec![0xff, 0xff, 0xff]), SECRET),
        Action::Close
    );
    assert!(relay.actors[bad].is_closing());
    let id = relay.actors[bad].id();
    relay.hub.unsubscribe(id);
    assert!(!relay.actors[good].is_closing());
    let token = rusty_chat::auth::issue_token(SECRET, 1).unwrap();
    client_sends(&mut relay, good, &chat("bob", "still here", &token));
    assert_eq!(client_receives(&mut relay, bad), vec![]);
    assert_eq!(client_receives(&mut relay, good), vec![]);
}
