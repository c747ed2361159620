//! The connection actor: what one connection decides.
//!
//! An actor is a state machine. The program that owns the socket hands it
//! what happened (a length prefix was read, a body was read, the hub has an
//! event, the user table has answered) and does what the actor answers:
//! read a body, publish an event, write a frame, ask the user table, close.
//! The actor itself touches neither the socket nor the table.

use crate::auth::{
    hash_password, issue_token, issued_token, password_matches, token_valid, verify_password,
    verify_token, AuthError, HashError, SignError,
};
use crate::frame::{decode_header, framed, header_value};
use crate::hub::{delivers, EventView, Hub, HubEvent};
use crate::message::{
    LoginMsg, LoginMsgView, MsgType, MsgView, ResView, ServerMsg, ServerMsgView, ServerRes,
    TokenMsg, TokenMsgView, UserMsg, UserMsgView,
};
use crate::store::{StoreError, User, UserView};
use crate::wire::{decode_msg_type, decoded, encode_msg_type, msg_bytes};
use vstd::prelude::*;

verus! {

/// Answer to a chat message whose token is not valid.
pub const MSG_NOT_SIGNED: &'static str = "Msg is not signed.";

/// Answer to a login that did not succeed.
pub const MSG_BAD_LOGIN: &'static str = "The username or password are incorrect!.";

/// Answer to a signup under a name that is taken.
pub const MSG_USER_EXISTS: &'static str = "User already exist!.";

/// Answer to a signup whose password could not be hashed.
pub const MSG_HASH_FAILED: &'static str = "The password could not be hashed.";

/// The two states of a connection.
#[derive(Debug, Clone, Copy, PartialEq, Eq)]
pub enum ActorState {
    /// The connection is open.
    Reading,
    /// The connection is over. Nothing follows.
    Closing,
}

/// What an open connection expects next from its socket or the user table.
#[derive(Debug, Clone, PartialEq, Eq)]
pub enum Waiting {
    /// The length prefix of the next frame.
    Header,
    /// The body of a frame, of the length its prefix declared.
    Body(u32),
    /// The user table's answer to the lookup of a login.
    Lookup(LoginMsg),
    /// The user table's answer to a signup.
    Insert,
}

/// View of [`Waiting`].
pub enum WaitingView {
    Header,
    Body(u32),
    Lookup(LoginMsgView),
    Insert,
}

impl View for Waiting {
    type V = WaitingView;

    open spec fn view(&self) -> WaitingView {
        match self {
            Waiting::Header => WaitingView::Header,
            Waiting::Body(len) => WaitingView::Body(*len),
            Waiting::Lookup(creds) => WaitingView::Lookup(creds@),
            Waiting::Insert => WaitingView::Insert,
        }
    }
}

/// What happened.
#[derive(Debug, PartialEq, Eq)]
pub enum ActorEvent {
    /// The four bytes of a length prefix were read from the socket.
    Header([u8; 4]),
    /// A body was read from the socket.
    Body(Vec<u8>),
    /// A read found the socket closed, or failed.
    ReadFailed,
    /// A write failed.
    WriteFailed,
    /// The hub has an event for this subscriber.
    Hub(HubEvent),
    /// The user table has answered a lookup.
    Lookup(Result<User, StoreError>),
    /// The user table has answered a signup.
    Insert(Result<User, StoreError>),
}

/// View of [`ActorEvent`].
pub enum ActorEventView {
    Header(Seq<u8>),
    Body(Seq<u8>),
    ReadFailed,
    WriteFailed,
    Hub(EventView),
    Lookup(Result<UserView, StoreError>),
    Insert(Result<UserView, StoreError>),
}

/// The view of an answer of the user table.
pub open spec fn answer_view(answer: Result<User, StoreError>) -> Result<UserView, StoreError> {
    match answer {
        Ok(user) => Ok(user@),
        Err(e) => Err(e),
    }
}

impl View for ActorEvent {
    type V = ActorEventView;

    open spec fn view(&self) -> ActorEventView {
        match self {
            ActorEvent::Header(header) => ActorEventView::Header(header@),
            ActorEvent::Body(body) => ActorEventView::Body(body@),
            ActorEvent::ReadFailed => ActorEventView::ReadFailed,
            ActorEvent::WriteFailed => ActorEventView::WriteFailed,
            ActorEvent::Hub(event) => ActorEventView::Hub(event@),
            ActorEvent::Lookup(answer) => ActorEventView::Lookup(answer_view(*answer)),
            ActorEvent::Insert(answer) => ActorEventView::Insert(answer_view(*answer)),
        }
    }
}

/// What is to be done.
#[derive(Debug, Clone, PartialEq, Eq)]
pub enum Action {
    /// Nothing. Wait for the next event.
    Wait,
    /// Read a body of this many bytes from the socket.
    ReadBody(u32),
    /// Publish the event on the hub.
    Publish(HubEvent),
    /// Write the frame to the socket.
    Write(Vec<u8>),
    /// Look the user of this name up in the user table.
    FindUser(String),
    /// Sign the user up in the user table.
    CreateUser { name: String, password_hash: String },
    /// Close the socket and drop the subscription.
    Close,
}

/// View of [`Action`].
pub enum ActionView {
    Wait,
    ReadBody(u32),
    Publish(EventView),
    Write(Seq<u8>),
    FindUser(Seq<char>),
    CreateUser { name: Seq<char>, password_hash: Seq<char> },
    Close,
}

impl View for Action {
    type V = ActionView;

    open spec fn view(&self) -> ActionView {
        match self {
            Action::Wait => ActionView::Wait,
            Action::ReadBody(len) => ActionView::ReadBody(*len),
            Action::Publish(event) => ActionView::Publish(event@),
            Action::Write(frame) => ActionView::Write(frame@),
            Action::FindUser(name) => ActionView::FindUser(name@),
            Action::CreateUser { name, password_hash } => ActionView::CreateUser {
                name: name@,
                password_hash: password_hash@,
            },
            Action::Close => ActionView::Close,
        }
    }
}

/// The state of one connection.
pub struct Actor {
    id: u64,
    max_frame_len: u32,
    state: ActorState,
    waiting: Waiting,
}

/// View of [`Actor`].
pub struct ActorView {
    /// The identity of the connection.
    pub id: u64,
    /// The longest body the connection reads.
    pub max_frame_len: u32,
    pub state: ActorState,
    pub waiting: WaitingView,
}

impl View for Actor {
    type V = ActorView;

    closed spec fn view(&self) -> ActorView {
        ActorView {
            id: self.id,
            max_frame_len: self.max_frame_len,
            state: self.state,
            waiting: self.waiting@,
        }
    }
}

// ---------------------------------------------------------------------
// The events an actor publishes
// ---------------------------------------------------------------------
/// The event that carries a response to the connection that asked, and to
/// no other.
pub open spec fn reply(origin: u64, res: ResView) -> EventView {
    EventView { origin, directed: true, payload: framed(msg_bytes(MsgView::Server(res))) }
}

/// The event that carries a chat message to every connection but the one it
/// came from.
pub open spec fn relay(origin: u64, msg: ServerMsgView) -> EventView {
    EventView { origin, directed: false, payload: framed(msg_bytes(MsgView::MsgIn(msg))) }
}

/// What becomes of a chat message from a client: it is relayed, without its
/// token, where the token is valid; the sender is told where it is not.
pub open spec fn chat_event(origin: u64, msg: UserMsgView, token_ok: bool) -> EventView {
    if token_ok {
        relay(origin, ServerMsgView { username: msg.username, data: msg.data })
    } else {
        reply(origin, ResView::Error(MSG_NOT_SIGNED@))
    }
}

/// The answer to a login: a token where the user exists, the password
/// belongs to the stored hash and a token could be signed; the same error
/// in every other case.
pub open spec fn login_res(
    found: Result<UserView, StoreError>,
    password_ok: bool,
    token: Option<Seq<char>>,
) -> ResView {
    match found {
        Ok(user) => if password_ok {
            match token {
                Some(token) => ResView::UserToken(TokenMsgView { token, username: user.name }),
                None => ResView::Error(MSG_BAD_LOGIN@),
            }
        } else {
            ResView::Error(MSG_BAD_LOGIN@)
        },
        Err(_) => ResView::Error(MSG_BAD_LOGIN@),
    }
}

/// The answer to a signup.
pub open spec fn signup_res(created: Result<UserView, StoreError>) -> ResView {
    match created {
        Ok(_) => ResView::UserCreated,
        Err(_) => ResView::Error(MSG_USER_EXISTS@),
    }
}

/// The answer to the login with `creds` under `secret`, once the user table
/// has answered.
pub open spec fn login_answer(
    creds: LoginMsgView,
    found: Result<UserView, StoreError>,
    secret: Seq<char>,
) -> ResView {
    match found {
        Ok(user) => login_res(
            found,
            password_matches(creds.password, user.password),
            issued_token(secret, user.id),
        ),
        Err(_) => login_res(found, false, None),
    }
}

// ---------------------------------------------------------------------
// The transition function
// ---------------------------------------------------------------------
/// The actor of a fresh connection: open, expecting a length prefix.
pub open spec fn fresh(id: u64, max_frame_len: u32) -> ActorView {
    ActorView { id, max_frame_len, state: ActorState::Reading, waiting: WaitingView::Header }
}

/// The actor with nothing pending: it expects the next length prefix.
pub open spec fn idle(actor: ActorView) -> ActorView {
    ActorView { waiting: WaitingView::Header, ..actor }
}

/// The actor after its connection has ended.
pub open spec fn closed(actor: ActorView) -> ActorView {
    ActorView { state: ActorState::Closing, waiting: WaitingView::Header, ..actor }
}

/// After a length prefix: the body is read, unless it is declared longer
/// than the connection accepts.
pub open spec fn header_step(actor: ActorView, header: Seq<u8>) -> (ActorView, ActionView) {
    let len = header_value(header);
    if len <= actor.max_frame_len {
        (ActorView { waiting: WaitingView::Body(len as u32), ..actor }, ActionView::ReadBody(
            len as u32,
        ))
    } else {
        (closed(actor), ActionView::Close)
    }
}

/// After a signup has been read and its password hashed: the user table is
/// asked to sign the user up; where there is no hash, the sender is told.
pub open spec fn signup_step(actor: ActorView, creds: LoginMsgView, hashed: Option<Seq<char>>) -> (
    ActorView,
    ActionView,
) {
    match hashed {
        Some(password_hash) => (ActorView { waiting: WaitingView::Insert, ..actor },
            ActionView::CreateUser { name: creds.username, password_hash }),
        None => (idle(actor), ActionView::Publish(
            reply(actor.id, ResView::Error(MSG_HASH_FAILED@)),
        )),
    }
}

/// After a message has been decoded. `hashed` is what hashing the password
/// gave; only a signup looks at it.
pub open spec fn message_step(
    actor: ActorView,
    msg: MsgView,
    secret: Seq<char>,
    hashed: Option<Seq<char>>,
) -> (ActorView, ActionView) {
    match msg {
        MsgView::MsgOut(msg) => (idle(actor), ActionView::Publish(
            chat_event(actor.id, msg, token_valid(secret, msg.token)),
        )),
        MsgView::Login(creds) => (ActorView { waiting: WaitingView::Lookup(creds), ..actor },
            ActionView::FindUser(creds.username)),
        MsgView::Signup(creds) => signup_step(actor, creds, hashed),
        MsgView::MsgIn(_) => (idle(actor), ActionView::Wait),
        MsgView::Server(_) => (idle(actor), ActionView::Wait),
    }
}

/// After a body: a body of another length than declared, or one that is no
/// message, ends the connection.
pub open spec fn body_step(
    actor: ActorView,
    len: u32,
    body: Seq<u8>,
    secret: Seq<char>,
    hashed: Option<Seq<char>>,
) -> (ActorView, ActionView) {
    if body.len() != len {
        (closed(actor), ActionView::Close)
    } else {
        match decoded(body) {
            Some(msg) => message_step(actor, msg, secret, hashed),
            None => (closed(actor), ActionView::Close),
        }
    }
}

/// The transition function of the actor: its next state and what is to be
/// done, for every state and event. `hashed` is what hashing the password
/// gave; only a signup looks at it.
///
/// An event that the actor does not expect in its state (a body that no
/// prefix announced, an answer to a question it did not ask) changes
/// nothing and calls for nothing.
pub open spec fn step_spec(
    actor: ActorView,
    event: ActorEventView,
    secret: Seq<char>,
    hashed: Option<Seq<char>>,
) -> (ActorView, ActionView) {
    match actor.state {
        ActorState::Closing => (actor, ActionView::Close),
        ActorState::Reading => match event {
            ActorEventView::ReadFailed => (closed(actor), ActionView::Close),
            ActorEventView::WriteFailed => (closed(actor), ActionView::Close),
            ActorEventView::Hub(event) => (actor, if delivers(event, actor.id) {
                ActionView::Write(event.payload)
            } else {
                ActionView::Wait
            }),
            ActorEventView::Header(header) => match actor.waiting {
                WaitingView::Header => header_step(actor, header),
                _ => (actor, ActionView::Wait),
            },
            ActorEventView::Body(body) => match actor.waiting {
                WaitingView::Body(len) => body_step(actor, len, body, secret, hashed),
                _ => (actor, ActionView::Wait),
            },
            ActorEventView::Lookup(found) => match actor.waiting {
                WaitingView::Lookup(creds) => (idle(actor), ActionView::Publish(
                    reply(actor.id, login_answer(creds, found, secret)),
                )),
                _ => (actor, ActionView::Wait),
            },
            ActorEventView::Insert(created) => match actor.waiting {
                WaitingView::Insert => (idle(actor), ActionView::Publish(
                    reply(actor.id, signup_res(created)),
                )),
                _ => (actor, ActionView::Wait),
            },
        },
    }
}

/// The hash that an action hands to the user table, if it hands one.
pub open spec fn hash_in(action: ActionView) -> Option<Seq<char>> {
    match action {
        ActionView::CreateUser { password_hash, .. } => Some(password_hash),
        _ => None,
    }
}

/// The token that an event makes the actor hand out, if it makes it hand
/// one out.
pub open spec fn token_out(actor: ActorView, event: ActorEventView, secret: Seq<char>) -> Option<
    Seq<char>,
> {
    match (actor.state, actor.waiting, event) {
        (ActorState::Reading, WaitingView::Lookup(creds), ActorEventView::Lookup(found)) => {
            match login_answer(creds, found, secret) {
                ResView::UserToken(token) => Some(token.token),
                _ => None,
            }
        },
        _ => None,
    }
}

/// The password of the signup that an event brings to the actor, if it
/// brings one.
pub open spec fn signup_password(actor: ActorView, event: ActorEventView) -> Option<Seq<char>> {
    match (actor.state, actor.waiting, event) {
        (ActorState::Reading, WaitingView::Body(len), ActorEventView::Body(body)) => if body.len()
            == len {
            match decoded(body) {
                Some(MsgView::Signup(creds)) => Some(creds.password),
                _ => None,
            }
        } else {
            None
        },
        _ => None,
    }
}

// ---------------------------------------------------------------------
// Decisions on what the outside answered
// ---------------------------------------------------------------------
/// The view of the outcome of signing.
pub open spec fn token_view(token: Result<String, SignError>) -> Option<Seq<char>> {
    match token {
        Ok(token) => Some(token@),
        Err(_) => None,
    }
}

/// The view of the outcome of hashing.
pub open spec fn hash_view(hashed: Result<String, HashError>) -> Option<Seq<char>> {
    match hashed {
        Ok(hash) => Some(hash@),
        Err(_) => None,
    }
}

/// The event that carries `res` back to the connection `origin`.
pub fn reply_event(origin: u64, res: ServerRes) -> (event: HubEvent)
    ensures
        event@ == reply(origin, res@),
{
    let msg = MsgType::Server(res);
    HubEvent { origin, directed: true, payload: encode_msg_type(&msg) }
}

/// What becomes of a chat message from the connection `origin`, given what
/// the check of its token found.
pub fn chat_outcome(origin: u64, msg: UserMsg, verdict: Result<(), AuthError>) -> (event: HubEvent)
    ensures
        event@ == chat_event(origin, msg@, verdict is Ok),
{
    match verdict {
        Ok(_) => {
            let relayed = MsgType::MsgIn(ServerMsg { username: msg.username, data: msg.data });
            HubEvent { origin, directed: false, payload: encode_msg_type(&relayed) }
        },
        Err(_) => reply_event(origin, ServerRes::Error(MSG_NOT_SIGNED.to_owned())),
    }
}

/// The answer to a login, given what the user table found, whether the
/// password belongs to the stored hash, and what signing gave.
pub fn login_outcome(
    found: Result<User, StoreError>,
    password_ok: bool,
    token: Result<String, SignError>,
) -> (res: ServerRes)
    ensures
        res@ == login_res(answer_view(found), password_ok, token_view(token)),
{
    match found {
        Ok(user) => {
            if password_ok {
                match token {
                    Ok(token) => ServerRes::UserToken(TokenMsg { token, username: user.name }),
                    Err(_) => ServerRes::Error(MSG_BAD_LOGIN.to_owned()),
                }
            } else {
                ServerRes::Error(MSG_BAD_LOGIN.to_owned())
            }
        },
        Err(_) => ServerRes::Error(MSG_BAD_LOGIN.to_owned()),
    }
}

/// The answer to a signup, given what the user table answered.
pub fn signup_outcome(created: Result<User, StoreError>) -> (res: ServerRes)
    ensures
        res@ == signup_res(answer_view(created)),
{
    match created {
        Ok(_) => ServerRes::UserCreated,
        Err(_) => ServerRes::Error(MSG_USER_EXISTS.to_owned()),
    }
}

/// The answer to the login with `creds`, once the user table has answered:
/// the password is checked against the stored hash and, where it belongs to
/// it, a token is issued.
pub fn login_reply(creds: &LoginMsg, found: Result<User, StoreError>, secret: &str) -> (res:
    ServerRes)
    ensures
        res@ == login_answer(creds@, answer_view(found), secret@),
        res@ matches ResView::UserToken(token) ==> token_valid(secret@, token.token),
{
    let password_ok: bool = match &found {
        Ok(user) => verify_password(creds.password.as_str(), user.password.as_str()),
        Err(_) => false,
    };
    let token: Result<String, SignError> = match &found {
        Ok(user) => if password_ok {
            issue_token(secret, user.id)
        } else {
            Err(SignError)
        },
        Err(_) => Err(SignError),
    };
    login_outcome(found, password_ok, token)
}

impl Actor {
    /// The actor of a fresh connection: open, expecting a length prefix.
    pub fn new(id: u64, max_frame_len: u32) -> (actor: Actor)
        ensures
            actor@ == fresh(id, max_frame_len),
    {
        Actor { id, max_frame_len, state: ActorState::Reading, waiting: Waiting::Header }
    }

    /// Takes a connection in: it is subscribed to the hub, and the id of the
    /// subscription becomes the identity of its actor. There is no actor
    /// where the hub has no id left to hand out.
    pub fn accept(hub: &mut Hub, max_frame_len: u32) -> (r: Option<Actor>)
        requires
            old(hub).wf(),
        ensures
            final(hub).wf(),
            final(hub).capacity() == old(hub).capacity(),
            match r {
                Some(actor) => {
                    &&& actor@ == fresh(actor@.id, max_frame_len)
                    &&& actor@.id == old(hub).issued()
                    &&& final(hub).issued() == old(hub).issued() + 1
                    &&& !old(hub)@.dom().contains(actor@.id)
                    &&& final(hub)@ == old(hub)@.insert(actor@.id, Seq::<EventView>::empty())
                },
                None => {
                    &&& old(hub).issued() == u64::MAX
                    &&& final(hub).issued() == old(hub).issued()
                    &&& final(hub)@ == old(hub)@
                },
            },
    {
        match hub.subscribe() {
            Some(id) => Some(Actor::new(id, max_frame_len)),
            None => None,
        }
    }

    /// Lets a connection go: its subscription is dropped, and with it what
    /// waited there.
    pub fn release(&self, hub: &mut Hub)
        requires
            old(hub).wf(),
        ensures
            final(hub).wf(),
            final(hub).capacity() == old(hub).capacity(),
            final(hub).issued() == old(hub).issued(),
            final(hub)@ == old(hub)@.remove(self@.id),
    {
        hub.unsubscribe(self.id);
    }

    /// The identity of the connection.
    pub fn id(&self) -> (id: u64)
        ensures
            id == self@.id,
    {
        self.id
    }

    /// The longest body the connection reads.
    pub fn max_frame_len(&self) -> (len: u32)
        ensures
            len == self@.max_frame_len,
    {
        self.max_frame_len
    }

    /// The state of the connection.
    pub fn state(&self) -> (state: ActorState)
        ensures
            state == self@.state,
    {
        self.state
    }

    /// Whether the connection is over.
    pub fn is_closing(&self) -> (yes: bool)
        ensures
            yes == (self@.state == ActorState::Closing),
    {
        match self.state {
            ActorState::Closing => true,
            ActorState::Reading => false,
        }
    }

    /// What the connection expects next.
    pub fn waiting(&self) -> (waiting: &Waiting)
        ensures
            waiting@ == self@.waiting,
    {
        &self.waiting
    }

    fn close(&mut self) -> (action: Action)
        ensures
            final(self)@ == closed(old(self)@),
            action@ == ActionView::Close,
    {
        self.state = ActorState::Closing;
        self.waiting = Waiting::Header;
        Action::Close
    }

    /// Takes a length prefix in.
    fn on_header(&mut self, header: &[u8; 4]) -> (action: Action)
        ensures
            (final(self)@, action@) == header_step(old(self)@, header@),
    {
        let len: u32 = decode_header(header.as_slice());
        assert(header@.take(4) =~= header@);
        if len <= self.max_frame_len {
            self.waiting = Waiting::Body(len);
            Action::ReadBody(len)
        } else {
            self.close()
        }
    }

    /// Takes a signup in, given what hashing its password gave.
    pub fn on_signup(&mut self, creds: LoginMsg, hashed: Result<String, HashError>) -> (action:
        Action)
        ensures
            (final(self)@, action@) == signup_step(old(self)@, creds@, hash_view(hashed)),
    {
        match hashed {
            Ok(password_hash) => {
                self.waiting = Waiting::Insert;
                Action::CreateUser { name: creds.username, password_hash }
            },
            Err(_) => {
                self.waiting = Waiting::Header;
                Action::Publish(
                    reply_event(self.id, ServerRes::Error(MSG_HASH_FAILED.to_owned())),
                )
            },
        }
    }

    /// Takes a decoded message in.
    fn on_message(&mut self, msg: MsgType, secret: &str) -> (action: Action)
        ensures
            (final(self)@, action@) == message_step(
                old(self)@,
                msg@,
                secret@,
                hash_in(action@),
            ),
            hash_in(action@) matches Some(hash) ==> {
                &&& msg@ matches MsgView::Signup(creds)
                &&& password_matches(creds.password, hash)
            },
    {
        match msg {
            MsgType::MsgOut(msg) => {
                let verdict = verify_token(secret, msg.token.as_str());
                self.waiting = Waiting::Header;
                Action::Publish(chat_outcome(self.id, msg, verdict))
            },
            MsgType::Login(creds) => {
                let name: String = creds.username.clone();
                self.waiting = Waiting::Lookup(creds);
                Action::FindUser(name)
            },
            MsgType::Signup(creds) => {
                let hashed = hash_password(creds.password.as_str());
                self.on_signup(creds, hashed)
            },
            MsgType::MsgIn(_) => {
                self.waiting = Waiting::Header;
                Action::Wait
            },
            MsgType::Server(_) => {
                self.waiting = Waiting::Header;
                Action::Wait
            },
        }
    }

    /// Takes a body in, of which the prefix declared `len` bytes.
    fn on_body(&mut self, len: u32, body: Vec<u8>, secret: &str) -> (action: Action)
        ensures
            (final(self)@, action@) == body_step(
                old(self)@,
                len,
                body@,
                secret@,
                hash_in(action@),
            ),
            hash_in(action@) matches Some(hash) ==> {
                &&& body@.len() == len
                &&& decoded(body@) matches Some(MsgView::Signup(creds))
                &&& password_matches(creds.password, hash)
            },
    {
        if body.len() != len as usize {
            return self.close();
        }
        match decode_msg_type(&body) {
            Ok(msg) => self.on_message(msg, secret),
            Err(_) => self.close(),
        }
    }

    /// Takes an event in: the actor moves to its next state and says what
    /// is to be done.
    ///
    /// State and action are those of `step_spec`. Where the event is a
    /// signup, its password is hashed under a fresh salt: the hash that the
    /// action then carries belongs to that password, and which hash it is,
    /// or that there is none, is the one thing the arguments do not decide.
    /// A token that a login is answered with is valid under the secret.
    pub fn step(&mut self, event: ActorEvent, secret: &str) -> (action: Action)
        ensures
            (final(self)@, action@) == step_spec(
                old(self)@,
                event@,
                secret@,
                hash_in(action@),
            ),
            hash_in(action@) matches Some(hash) ==> {
                &&& signup_password(old(self)@, event@) matches Some(password)
                &&& password_matches(password, hash)
            },
            token_out(old(self)@, event@, secret@) matches Some(token) ==> token_valid(
                secret@,
                token,
            ),
    {
        match self.state {
            ActorState::Closing => {
                return Action::Close;
            },
            ActorState::Reading => {},
        }
        match event {
            ActorEvent::ReadFailed => self.close(),
            ActorEvent::WriteFailed => self.close(),
            ActorEvent::Hub(event) => {
                if event.is_for(self.id) {
                    Action::Write(event.payload)
                } else {
                    Action::Wait
                }
            },
            ActorEvent::Header(header) => match self.waiting {
                Waiting::Header => self.on_header(&header),
                _ => Action::Wait,
            },
            ActorEvent::Body(body) => match self.waiting {
                Waiting::Body(len) => self.on_body(len, body, secret),
                _ => Action::Wait,
            },
            ActorEvent::Lookup(found) => {
                let mut waiting = Waiting::Header;
                std::mem::swap(&mut self.waiting, &mut waiting);
                match waiting {
                    Waiting::Lookup(creds) => Action::Publish(
                        reply_event(self.id, login_reply(&creds, found, secret)),
                    ),
                    other => {
                        self.waiting = other;
                        Action::Wait
                    },
                }
            },
            ActorEvent::Insert(created) => match self.waiting {
                Waiting::Insert => {
                    self.waiting = Waiting::Header;
                    Action::Publish(reply_event(self.id, signup_outcome(created)))
                },
                _ => Action::Wait,
            },
        }
    }
}

} // verus!
