//! What holds of the relay as a whole: statements that span the actor, the
//! hub, the user table and the wire format, each proved from the
//! definitions that the contracts of those modules are written in.

use crate::actor::{
    closed, idle, login_answer, relay, reply, signup_res, step_spec, ActionView, ActorEventView,
    ActorState, ActorView, WaitingView, MSG_BAD_LOGIN, MSG_NOT_SIGNED, MSG_USER_EXISTS,
};
use crate::auth::{issued_token, password_matches, token_valid};
use crate::frame::{framed, lemma_framed_body, lemma_header_round_trip, MSG_SIZE_BYTES};
use crate::hub::{bounded, delivers, published, EventView};
use crate::message::{
    DataView, LoginMsgView, MsgView, ResView, ServerMsgView, TokenMsgView, UserMsgView,
};
use crate::store::{
    created, found, has_name, lemma_create_keeps_wf, lemma_row_named, new_row, row_named,
    rows_after_create, rows_wf, StoreError, UserView,
};
use crate::wire::{decoded, lemma_decode_encode, lemma_decoded_fits, msg_bytes, msg_fits};
use vstd::prelude::*;

verus! {

/// A connection that is over stays over: whatever happens, the actor
/// remains in `Closing` and asks for nothing but to be closed.
pub proof fn law_closing_is_terminal(
    actor: ActorView,
    event: ActorEventView,
    secret: Seq<char>,
    hashed: Option<Seq<char>>,
)
    requires
        actor.state == ActorState::Closing,
    ensures
        step_spec(actor, event, secret, hashed) == (actor, ActionView::Close),
{
}

/// A failed read and a failed write end the connection, in whatever the
/// actor was waiting for.
pub proof fn law_io_failure_closes(actor: ActorView, secret: Seq<char>, hashed: Option<Seq<char>>)
    requires
        actor.state == ActorState::Reading,
    ensures
        step_spec(actor, ActorEventView::ReadFailed, secret, hashed) == (
            closed(actor),
            ActionView::Close,
        ),
        step_spec(actor, ActorEventView::WriteFailed, secret, hashed) == (
            closed(actor),
            ActionView::Close,
        ),
{
}

/// A body that is no message ends the connection, and nothing is published.
pub proof fn law_malformed_body_closes(
    actor: ActorView,
    len: u32,
    body: Seq<u8>,
    secret: Seq<char>,
    hashed: Option<Seq<char>>,
)
    requires
        actor.state == ActorState::Reading,
        actor.waiting == WaitingView::Body(len),
        decoded(body) is None,
    ensures
        step_spec(actor, ActorEventView::Body(body), secret, hashed) == (
            closed(actor),
            ActionView::Close,
        ),
{
}

/// The frame of a message carries the message: what stands behind the
/// prefix decodes to the message.
pub proof fn law_frame_carries_message(msg: MsgView)
    requires
        msg_fits(msg),
    ensures
        decoded(framed(msg_bytes(msg)).skip(MSG_SIZE_BYTES as int)) == Some(msg),
{
    lemma_framed_body(msg_bytes(msg));
    lemma_decode_encode(msg);
}

/// Signing up under a free name succeeds. Signing up again under that name
/// is refused and changes nothing. Logging in with a password that belongs
/// to the stored hash is then answered with the token of the new user and
/// the name, where a token could be signed.
pub proof fn law_signup_once_then_login(
    rows: Seq<UserView>,
    name: Seq<char>,
    password: Seq<char>,
    hash: Seq<char>,
    second_hash: Seq<char>,
    secret: Seq<char>,
)
    requires
        rows_wf(rows),
        rows.len() < i64::MAX,
        !has_name(rows, name),
        password_matches(password, hash),
    ensures
        ({
            let after = rows_after_create(rows, name, hash);
            let user = new_row(rows, name, hash);
            let creds = LoginMsgView { username: name, password };
            &&& rows_wf(after)
            &&& created(rows, name, hash) == Ok::<UserView, StoreError>(user)
            &&& signup_res(created(rows, name, hash)) == ResView::UserCreated
            &&& created(after, name, second_hash) == Err::<UserView, StoreError>(
                StoreError::Conflict,
            )
            &&& signup_res(created(after, name, second_hash)) == ResView::Error(MSG_USER_EXISTS@)
            &&& rows_after_create(after, name, second_hash) == after
            &&& found(after, name) == Ok::<UserView, StoreError>(user)
            &&& login_answer(creds, found(after, name), secret) == match issued_token(
                secret,
                user.id,
            ) {
                Some(token) => ResView::UserToken(TokenMsgView { token, username: name }),
                None => ResView::Error(MSG_BAD_LOGIN@),
            }
        }),
{
    let after = rows_after_create(rows, name, hash);
    let last = rows.len() as int;
    lemma_create_keeps_wf(rows, name, hash);
    assert(after[last] == new_row(rows, name, hash));
    lemma_row_named(after, last);
}

/// A signup under a free name, read from its frame by an open connection
/// and hashed to `hash`, adds exactly one user to the table, under that name
/// and with that hash, and is answered with `UserCreated` to the connection
/// that asked and to no other.
pub proof fn law_signup_adds_one_user(
    actor: ActorView,
    creds: LoginMsgView,
    hash: Seq<char>,
    rows: Seq<UserView>,
    secret: Seq<char>,
    other: u64,
)
    requires
        actor.state == ActorState::Reading,
        msg_fits(MsgView::Signup(creds)),
        actor.waiting == WaitingView::Body(msg_bytes(MsgView::Signup(creds)).len() as u32),
        msg_bytes(MsgView::Signup(creds)).len() <= u32::MAX,
        rows_wf(rows),
        rows.len() < i64::MAX,
        !has_name(rows, creds.username),
    ensures
        ({
            let body = msg_bytes(MsgView::Signup(creds));
            let asking = ActorView { waiting: WaitingView::Insert, ..actor };
            let user = new_row(rows, creds.username, hash);
            let answer = created(rows, creds.username, hash);
            let event = reply(actor.id, ResView::UserCreated);
            &&& step_spec(actor, ActorEventView::Body(body), secret, Some(hash)) == (
                asking,
                ActionView::CreateUser { name: creds.username, password_hash: hash },
            )
            &&& answer == Ok::<UserView, StoreError>(user)
            &&& user.name == creds.username
            &&& user.password == hash
            &&& rows_after_create(rows, creds.username, hash) == rows.push(user)
            &&& step_spec(asking, ActorEventView::Insert(answer), secret, None) == (
                idle(actor),
                ActionView::Publish(event),
            )
            &&& delivers(event, other) <==> other == actor.id
        }),
{
    lemma_decode_encode(MsgView::Signup(creds));
}

/// A signup under a taken name leaves the table as it was, whatever the
/// password, and is answered with an error to the connection that asked and
/// to no other; the connection stays open.
pub proof fn law_signup_under_a_taken_name_is_refused(
    actor: ActorView,
    creds: LoginMsgView,
    hash: Seq<char>,
    rows: Seq<UserView>,
    secret: Seq<char>,
    other: u64,
)
    requires
        actor.state == ActorState::Reading,
        msg_fits(MsgView::Signup(creds)),
        actor.waiting == WaitingView::Body(msg_bytes(MsgView::Signup(creds)).len() as u32),
        msg_bytes(MsgView::Signup(creds)).len() <= u32::MAX,
        has_name(rows, creds.username),
    ensures
        ({
            let body = msg_bytes(MsgView::Signup(creds));
            let asking = ActorView { waiting: WaitingView::Insert, ..actor };
            let answer = created(rows, creds.username, hash);
            let event = reply(actor.id, ResView::Error(MSG_USER_EXISTS@));
            &&& step_spec(actor, ActorEventView::Body(body), secret, Some(hash)) == (
                asking,
                ActionView::CreateUser { name: creds.username, password_hash: hash },
            )
            &&& answer == Err::<UserView, StoreError>(StoreError::Conflict)
            &&& rows_after_create(rows, creds.username, hash) == rows
            &&& step_spec(asking, ActorEventView::Insert(answer), secret, None) == (
                idle(actor),
                ActionView::Publish(event),
            )
            &&& idle(actor).state == ActorState::Reading
            &&& delivers(event, other) <==> other == actor.id
        }),
{
    lemma_decode_encode(MsgView::Signup(creds));
}

/// A login of a user of the table, with a password that belongs to the
/// stored hash, is answered with the token issued for the user's id and
/// with the name, to the connection that asked and to no other. The table
/// is only read.
pub proof fn law_login_yields_the_token(
    actor: ActorView,
    creds: LoginMsgView,
    rows: Seq<UserView>,
    secret: Seq<char>,
    token: Seq<char>,
    other: u64,
)
    requires
        actor.state == ActorState::Reading,
        msg_fits(MsgView::Login(creds)),
        actor.waiting == WaitingView::Body(msg_bytes(MsgView::Login(creds)).len() as u32),
        msg_bytes(MsgView::Login(creds)).len() <= u32::MAX,
        has_name(rows, creds.username),
        password_matches(creds.password, row_named(rows, creds.username).password),
        issued_token(secret, row_named(rows, creds.username).id) == Some(token),
    ensures
        ({
            let body = msg_bytes(MsgView::Login(creds));
            let asking = ActorView { waiting: WaitingView::Lookup(creds), ..actor };
            let answer = found(rows, creds.username);
            let event = reply(
                actor.id,
                ResView::UserToken(TokenMsgView { token, username: creds.username }),
            );
            &&& step_spec(actor, ActorEventView::Body(body), secret, None) == (
                asking,
                ActionView::FindUser(creds.username),
            )
            &&& answer == Ok::<UserView, StoreError>(row_named(rows, creds.username))
            &&& step_spec(asking, ActorEventView::Lookup(answer), secret, None) == (
                idle(actor),
                ActionView::Publish(event),
            )
            &&& delivers(event, other) <==> other == actor.id
        }),
{
    lemma_decode_encode(MsgView::Login(creds));
}

/// A token is handed out only after a successful login: the user is known,
/// the password belongs to the stored hash, and the token is the one issued
/// for that user's id.
pub proof fn law_token_needs_a_login(
    creds: LoginMsgView,
    answer: Result<UserView, StoreError>,
    secret: Seq<char>,
)
    ensures
        login_answer(creds, answer, secret) matches ResView::UserToken(token) ==> {
            &&& answer matches Ok(user)
            &&& password_matches(creds.password, user.password)
            &&& issued_token(secret, user.id) == Some(token.token)
            &&& token.username == user.name
        },
{
}

/// A login is never answered with a token where the user is unknown or the
/// password does not belong to the stored hash: the answer is an error, and
/// it goes to the connection that asked and to no other.
pub proof fn law_wrong_password_gets_no_token(
    actor: ActorView,
    creds: LoginMsgView,
    answer: Result<UserView, StoreError>,
    secret: Seq<char>,
    hashed: Option<Seq<char>>,
    other: u64,
)
    requires
        actor.state == ActorState::Reading,
        actor.waiting == WaitingView::Lookup(creds),
        !(answer matches Ok(user) && password_matches(creds.password, user.password)),
    ensures
        login_answer(creds, answer, secret) == ResView::Error(MSG_BAD_LOGIN@),
        step_spec(actor, ActorEventView::Lookup(answer), secret, hashed) == (
            idle(actor),
            ActionView::Publish(reply(actor.id, ResView::Error(MSG_BAD_LOGIN@))),
        ),
        delivers(reply(actor.id, ResView::Error(MSG_BAD_LOGIN@)), other) <==> other == actor.id,
{
}

/// A chat message whose token is not valid is not relayed. The sender is
/// told so in a response that every other connection passes over.
pub proof fn law_unsigned_message_is_not_relayed(
    actor: ActorView,
    len: u32,
    body: Seq<u8>,
    msg: UserMsgView,
    secret: Seq<char>,
    hashed: Option<Seq<char>>,
    peer: ActorView,
)
    requires
        actor.state == ActorState::Reading,
        actor.waiting == WaitingView::Body(len),
        body.len() == len,
        decoded(body) == Some(MsgView::MsgOut(msg)),
        !token_valid(secret, msg.token),
        peer.state == ActorState::Reading,
    ensures
        ({
            let refusal = reply(actor.id, ResView::Error(MSG_NOT_SIGNED@));
            &&& step_spec(actor, ActorEventView::Body(body), secret, hashed) == (
                idle(actor),
                ActionView::Publish(refusal),
            )
            &&& step_spec(peer, ActorEventView::Hub(refusal), secret, hashed) == (
                peer,
                if peer.id == actor.id {
                    ActionView::Write(refusal.payload)
                } else {
                    ActionView::Wait
                },
            )
        }),
{
}

/// A chat message whose token is valid reaches every other connection
/// exactly once, and not the sender: the event that its connection
/// publishes comes into the buffer of every subscriber once, behind what
/// waited there; every other connection writes it to its socket, and what
/// it writes is the frame of the message without the token; the sender's own
/// connection passes it over.
pub proof fn law_signed_message_is_relayed(
    actor: ActorView,
    len: u32,
    body: Seq<u8>,
    msg: UserMsgView,
    secret: Seq<char>,
    hashed: Option<Seq<char>>,
    pending: Map<u64, Seq<EventView>>,
    capacity: nat,
    peer: ActorView,
)
    requires
        actor.state == ActorState::Reading,
        actor.waiting == WaitingView::Body(len),
        body.len() == len,
        decoded(body) == Some(MsgView::MsgOut(msg)),
        token_valid(secret, msg.token),
        capacity >= 1,
        bounded(pending, capacity),
        pending.dom().contains(peer.id),
        peer.state == ActorState::Reading,
    ensures
        ({
            let relayed = ServerMsgView { username: msg.username, data: msg.data };
            let event = relay(actor.id, relayed);
            let before = pending[peer.id];
            let after = published(pending, event, capacity)[peer.id];
            &&& step_spec(actor, ActorEventView::Body(body), secret, hashed) == (
                idle(actor),
                ActionView::Publish(event),
            )
            &&& after.len() >= 1
            &&& after.last() == event
            &&& after.drop_last() == if before.len() >= capacity {
                before.skip(1)
            } else {
                before
            }
            &&& step_spec(peer, ActorEventView::Hub(event), secret, hashed) == (
                peer,
                if peer.id != actor.id {
                    ActionView::Write(event.payload)
                } else {
                    ActionView::Wait
                },
            )
            &&& decoded(event.payload.skip(MSG_SIZE_BYTES as int)) == Some(MsgView::MsgIn(relayed))
        }),
{
    let relayed = ServerMsgView { username: msg.username, data: msg.data };
    let event = relay(actor.id, relayed);
    law_publish_reaches_every_subscriber(pending, event, capacity, peer.id);
    lemma_decoded_fits(body);
    law_frame_carries_message(MsgView::MsgIn(relayed));
}

/// Publishing adds the event exactly once to the buffer of every
/// subscriber, behind what waited there, and adds no subscriber.
pub proof fn law_publish_reaches_every_subscriber(
    pending: Map<u64, Seq<EventView>>,
    event: EventView,
    capacity: nat,
    subscriber: u64,
)
    requires
        capacity >= 1,
        bounded(pending, capacity),
    ensures
        published(pending, event, capacity).dom() == pending.dom(),
        bounded(published(pending, event, capacity), capacity),
        pending.dom().contains(subscriber) ==> {
            let before = pending[subscriber];
            let after = published(pending, event, capacity)[subscriber];
            &&& after.len() >= 1
            &&& after.last() == event
            &&& after.drop_last() == if before.len() >= capacity {
                before.skip(1)
            } else {
                before
            }
        },
{
    let after_all = published(pending, event, capacity);
    assert(after_all.dom() =~= pending.dom());
    assert forall|id: u64| after_all.dom().contains(id) implies (#[trigger] after_all[id]).len()
        <= capacity by {
        assert(pending[id].len() <= capacity);
    }
    if pending.dom().contains(subscriber) {
        let before = pending[subscriber];
        let after = after_all[subscriber];
        assert(before.len() <= capacity);
        if before.len() >= capacity {
            assert(after.drop_last() =~= before.skip(1));
        } else {
            assert(after.drop_last() =~= before);
        }
    }
}

/// Every event that an actor publishes names the actor's own connection as
/// its origin. It is directed, and so written by that connection alone,
/// unless it relays a chat message that came with a valid token.
pub proof fn law_answers_stay_with_the_asker(
    actor: ActorView,
    event: ActorEventView,
    secret: Seq<char>,
    hashed: Option<Seq<char>>,
    other: u64,
)
    ensures
        step_spec(actor, event, secret, hashed).1 matches ActionView::Publish(out) ==> {
            &&& out.origin == actor.id
            &&& out.directed ==> (delivers(out, other) <==> other == actor.id)
            &&& !out.directed ==> {
                &&& actor.waiting matches WaitingView::Body(len)
                &&& event matches ActorEventView::Body(body)
                &&& decoded(body) matches Some(MsgView::MsgOut(msg))
                &&& token_valid(secret, msg.token)
                &&& out == relay(
                    actor.id,
                    ServerMsgView { username: msg.username, data: msg.data },
                )
            }
        },
{
}

/// A subscriber whose buffer is full loses its oldest event to a newly
/// published one; a subscriber whose buffer has room loses nothing.
pub proof fn law_lag_is_isolated(
    pending: Map<u64, Seq<EventView>>,
    event: EventView,
    capacity: nat,
    slow: u64,
    fast: u64,
)
    requires
        pending.dom().contains(slow),
        pending.dom().contains(fast),
        pending[slow].len() >= capacity,
        pending[fast].len() < capacity,
    ensures
        published(pending, event, capacity)[slow] == pending[slow].skip(1).push(event),
        published(pending, event, capacity)[fast] == pending[fast].push(event),
{
}

/// What becomes of an actor that reads a frame from its socket, prefix
/// first, and what is then to be done.
#[verifier::opaque]
pub open spec fn reads_frame(
    actor: ActorView,
    frame: Seq<u8>,
    secret: Seq<char>,
    hashed: Option<Seq<char>>,
) -> (ActorView, ActionView) {
    let expecting = step_spec(
        actor,
        ActorEventView::Header(frame.take(MSG_SIZE_BYTES as int)),
        secret,
        None,
    ).0;
    step_spec(expecting, ActorEventView::Body(frame.skip(MSG_SIZE_BYTES as int)), secret, hashed)
}

/// What a connection writes to its socket of a run of hub events: the
/// payloads of those that are meant for it, in their order.
pub open spec fn written(conn: u64, events: Seq<EventView>) -> Seq<Seq<u8>>
    decreases events.len(),
{
    if events.len() == 0 {
        Seq::empty()
    } else if delivers(events.last(), conn) {
        written(conn, events.drop_last()).push(events.last().payload)
    } else {
        written(conn, events.drop_last())
    }
}

/// An open actor that expects a prefix reads the frame of a message in two
/// steps and then does what the message calls for.
pub proof fn law_frame_is_read_in_two_steps(
    actor: ActorView,
    msg: MsgView,
    secret: Seq<char>,
    hashed: Option<Seq<char>>,
)
    requires
        actor.state == ActorState::Reading,
        actor.waiting == WaitingView::Header,
        msg_fits(msg),
        msg_bytes(msg).len() <= actor.max_frame_len,
    ensures
        ({
            let len = msg_bytes(msg).len() as u32;
            let expecting = ActorView { waiting: WaitingView::Body(len), ..actor };
            &&& step_spec(
                actor,
                ActorEventView::Header(framed(msg_bytes(msg)).take(MSG_SIZE_BYTES as int)),
                secret,
                None,
            ) == (expecting, ActionView::ReadBody(len))
            &&& reads_frame(actor, framed(msg_bytes(msg)), secret, hashed) == step_spec(
                expecting,
                ActorEventView::Body(msg_bytes(msg)),
                secret,
                hashed,
            )
            &&& decoded(msg_bytes(msg)) == Some(msg)
        }),
{
    reveal(reads_frame);
    lemma_framed_body(msg_bytes(msg));
    lemma_header_round_trip(msg_bytes(msg));
    lemma_decode_encode(msg);
}

proof fn lemma_run_signup(
    first: ActorView,
    rows: Seq<UserView>,
    creds: LoginMsgView,
    hash: Seq<char>,
    secret: Seq<char>,
)
    requires
        first.state == ActorState::Reading,
        first.waiting == WaitingView::Header,
        rows_wf(rows),
        rows.len() < i64::MAX,
        !has_name(rows, creds.username),
        msg_fits(MsgView::Signup(creds)),
        msg_bytes(MsgView::Signup(creds)).len() <= first.max_frame_len,
    ensures
        ({
            let name = creds.username;
            let user = new_row(rows, name, hash);
            let table = rows.push(user);
            let signing_up = ActorView { waiting: WaitingView::Insert, ..first };
            &&& reads_frame(first, framed(msg_bytes(MsgView::Signup(creds))), secret, Some(hash))
                == (signing_up, ActionView::CreateUser { name, password_hash: hash })
            &&& rows_after_create(rows, name, hash) == table
            &&& rows_wf(table)
            &&& step_spec(
                signing_up,
                ActorEventView::Insert(created(rows, name, hash)),
                secret,
                None,
            ) == (first, ActionView::Publish(reply(first.id, ResView::UserCreated)))
            &&& found(table, name) == Ok::<UserView, StoreError>(user)
        }),
{
    let name = creds.username;
    let table = rows.push(new_row(rows, name, hash));
    law_frame_is_read_in_two_steps(first, MsgView::Signup(creds), secret, Some(hash));
    lemma_create_keeps_wf(rows, name, hash);
    assert(table[rows.len() as int] == new_row(rows, name, hash));
    lemma_row_named(table, rows.len() as int);
}

proof fn lemma_run_login(
    first: ActorView,
    creds: LoginMsgView,
    answer: Result<UserView, StoreError>,
    token: Seq<char>,
    secret: Seq<char>,
)
    requires
        first.state == ActorState::Reading,
        first.waiting == WaitingView::Header,
        msg_fits(MsgView::Login(creds)),
        msg_bytes(MsgView::Login(creds)).len() <= first.max_frame_len,
        answer matches Ok(user) && user.name == creds.username && password_matches(
            creds.password,
            user.password,
        ) && issued_token(secret, user.id) == Some(token),
    ensures
        ({
            let logging_in = ActorView { waiting: WaitingView::Lookup(creds), ..first };
            let ticket = reply(
                first.id,
                ResView::UserToken(TokenMsgView { token, username: creds.username }),
            );
            &&& reads_frame(first, framed(msg_bytes(MsgView::Login(creds))), secret, None) == (
                logging_in,
                ActionView::FindUser(creds.username),
            )
            &&& step_spec(logging_in, ActorEventView::Lookup(answer), secret, None) == (
                first,
                ActionView::Publish(ticket),
            )
        }),
{
    law_frame_is_read_in_two_steps(first, MsgView::Login(creds), secret, None);
}

proof fn lemma_run_chat(first: ActorView, chat: UserMsgView, secret: Seq<char>)
    requires
        first.state == ActorState::Reading,
        first.waiting == WaitingView::Header,
        msg_fits(MsgView::MsgOut(chat)),
        msg_bytes(MsgView::MsgOut(chat)).len() <= first.max_frame_len,
        token_valid(secret, chat.token),
    ensures
        reads_frame(first, framed(msg_bytes(MsgView::MsgOut(chat))), secret, None) == (
            first,
            ActionView::Publish(
                relay(first.id, ServerMsgView { username: chat.username, data: chat.data }),
            ),
        ),
{
    law_frame_is_read_in_two_steps(first, MsgView::MsgOut(chat), secret, None);
}

proof fn lemma_run_hub(
    pending: Map<u64, Seq<EventView>>,
    capacity: nat,
    event: EventView,
    conn: u64,
)
    requires
        capacity >= 1,
        pending.dom().contains(conn),
        pending[conn].len() == 0,
    ensures
        published(pending, event, capacity)[conn] == seq![event],
{
    assert(pending[conn].push(event) =~= seq![event]);
}

proof fn lemma_run_sockets(first: u64, second: u64, one: ResView, two: ResView, said: ServerMsgView)
    requires
        first != second,
    ensures
        ({
            let run = seq![reply(first, one), reply(first, two), relay(first, said)];
            &&& written(first, run) == seq![reply(first, one).payload, reply(first, two).payload]
            &&& written(second, run) == seq![relay(first, said).payload]
        }),
{
    let run = seq![reply(first, one), reply(first, two), relay(first, said)];
    let two_events = run.drop_last();
    let one_event = two_events.drop_last();
    assert(two_events =~= seq![reply(first, one), reply(first, two)]);
    assert(one_event =~= seq![reply(first, one)]);
    assert(one_event.drop_last() =~= Seq::<EventView>::empty());
    reveal_with_fuel(written, 4);
    assert(written(first, run) =~= seq![reply(first, one).payload, reply(first, two).payload]);
    assert(written(second, run) =~= seq![relay(first, said).payload]);
}

proof fn lemma_login_is_as_long_as_signup(creds: LoginMsgView)
    ensures
        msg_bytes(MsgView::Login(creds)).len() == msg_bytes(MsgView::Signup(creds)).len(),
        msg_fits(MsgView::Login(creds)) == msg_fits(MsgView::Signup(creds)),
{
}

/// A whole run, for every name, password and line of chat. A first
/// connection signs a user up under a free name, logs in and sends a line
/// with the token it got; a second connection is subscribed all the while.
/// Given that hashing the password gave `hash` and signing gave `token`:
/// the table gains the one user; the three events that the first connection
/// publishes reach both buffers; the first connection writes `UserCreated`
/// and the token to its socket and nothing further; the second writes the
/// line, once, without the token, and nothing else.
pub proof fn law_signup_login_chat(
    first: ActorView,
    second: ActorView,
    pending: Map<u64, Seq<EventView>>,
    capacity: nat,
    rows: Seq<UserView>,
    creds: LoginMsgView,
    line: Seq<char>,
    hash: Seq<char>,
    token: Seq<char>,
    secret: Seq<char>,
)
    requires
        first.state == ActorState::Reading,
        first.waiting == WaitingView::Header,
        second.state == ActorState::Reading,
        first.id != second.id,
        capacity >= 1,
        pending.dom().contains(first.id),
        pending.dom().contains(second.id),
        pending[first.id].len() == 0,
        pending[second.id].len() == 0,
        rows_wf(rows),
        rows.len() < i64::MAX,
        !has_name(rows, creds.username),
        msg_fits(MsgView::Signup(creds)),
        msg_fits(
            MsgView::MsgOut(
                UserMsgView { username: creds.username, data: DataView::Text(line), token },
            ),
        ),
        msg_bytes(MsgView::Signup(creds)).len() <= first.max_frame_len,
        msg_bytes(
            MsgView::MsgOut(
                UserMsgView { username: creds.username, data: DataView::Text(line), token },
            ),
        ).len() <= first.max_frame_len,
        password_matches(creds.password, hash),
        issued_token(secret, new_row(rows, creds.username, hash).id) == Some(token),
        token_valid(secret, token),
    ensures
        ({
            let name = creds.username;
            let user = new_row(rows, name, hash);
            let table = rows.push(user);
            let chat = UserMsgView { username: name, data: DataView::Text(line), token };
            let said = ServerMsgView { username: name, data: DataView::Text(line) };
            let welcome = reply(first.id, ResView::UserCreated);
            let ticket = reply(
                first.id,
                ResView::UserToken(TokenMsgView { token, username: name }),
            );
            let relayed = relay(first.id, said);
            let run = seq![welcome, ticket, relayed];
            let signing_up = ActorView { waiting: WaitingView::Insert, ..first };
            let logging_in = ActorView { waiting: WaitingView::Lookup(creds), ..first };
            // the signup
            &&& reads_frame(first, framed(msg_bytes(MsgView::Signup(creds))), secret, Some(hash))
                == (signing_up, ActionView::CreateUser { name, password_hash: hash })
            &&& rows_after_create(rows, name, hash) == table
            &&& rows_wf(table)
            &&& step_spec(
                signing_up,
                ActorEventView::Insert(created(rows, name, hash)),
                secret,
                None,
            ) == (first, ActionView::Publish(welcome))
            // the login
            &&& reads_frame(first, framed(msg_bytes(MsgView::Login(creds))), secret, None) == (
                logging_in,
                ActionView::FindUser(name),
            )
            &&& found(table, name) == Ok::<UserView, StoreError>(user)
            &&& step_spec(
                logging_in,
                ActorEventView::Lookup(found(table, name)),
                secret,
                None,
            ) == (first, ActionView::Publish(ticket))
            // the line of chat
            &&& reads_frame(first, framed(msg_bytes(MsgView::MsgOut(chat))), secret, None) == (
                first,
                ActionView::Publish(relayed),
            )
            // the hub
            &&& forall|i: int|
                0 <= i < 3 ==> published(pending, #[trigger] run[i], capacity)[first.id]
                    == seq![run[i]] && published(pending, run[i], capacity)[second.id]
                    == seq![run[i]]
            // the sockets
            &&& written(first.id, run) == seq![
                framed(msg_bytes(MsgView::Server(ResView::UserCreated))),
                framed(
                    msg_bytes(
                        MsgView::Server(
                            ResView::UserToken(TokenMsgView { token, username: name }),
                        ),
                    ),
                ),
            ]
            &&& written(second.id, run) == seq![framed(msg_bytes(MsgView::MsgIn(said)))]
        }),
{
    let name = creds.username;
    let user = new_row(rows, name, hash);
    let chat = UserMsgView { username: name, data: DataView::Text(line), token };
    let said = ServerMsgView { username: name, data: DataView::Text(line) };
    let run = seq![
        reply(first.id, ResView::UserCreated),
        reply(first.id, ResView::UserToken(TokenMsgView { token, username: name })),
        relay(first.id, said),
    ];
    lemma_login_is_as_long_as_signup(creds);
    lemma_run_signup(first, rows, creds, hash, secret);
    lemma_run_login(first, creds, Ok(user), token, secret);
    lemma_run_chat(first, chat, secret);
    assert forall|i: int| 0 <= i < 3 implies published(pending, #[trigger] run[i], capacity)[first.id]
        == seq![run[i]] && published(pending, run[i], capacity)[second.id] == seq![run[i]] by {
        lemma_run_hub(pending, capacity, run[i], first.id);
        lemma_run_hub(pending, capacity, run[i], second.id);
    }
    lemma_run_sockets(
        first.id,
        second.id,
        ResView::UserCreated,
        ResView::UserToken(TokenMsgView { token, username: name }),
        said,
    );
}

} // verus!
