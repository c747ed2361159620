//! The client's side of the protocol: what a client makes of the messages
//! it receives, the requests that its window hands to its connection, and
//! what the connection decides as the link to the server comes and goes.

use crate::frame::framed;
use crate::message::{DataView, ResView, ServerMsgView, UserMsgView};
use crate::message::{MsgDataType, MsgType, MsgView, ServerMsg, ServerRes, UserMsg};
use crate::wire::{decode_msg_type, decoded, encode_msg_type, msg_bytes};
use std::path::PathBuf;
use vstd::prelude::*;

verus! {

/// `std::path::PathBuf`, carried through and never looked into.
#[verifier::external_type_specification]
#[verifier::external_body]
pub struct ExPathBuf(PathBuf);

/// What the connection reports to the window.
#[derive(Debug, Clone, PartialEq, Eq)]
pub enum Event {
    /// The connection failed or could not be made.
    FailConnection,
    /// The connection is up.
    Connected,
    /// A chat message arrived.
    MsgRecived(ServerMsg),
    /// The server answered.
    ServerRes(ServerRes),
}

/// View of [`Event`].
pub enum ClientEventView {
    FailConnection,
    Connected,
    MsgRecived(ServerMsgView),
    ServerRes(ResView),
}

impl View for Event {
    type V = ClientEventView;

    open spec fn view(&self) -> ClientEventView {
        match self {
            Event::FailConnection => ClientEventView::FailConnection,
            Event::Connected => ClientEventView::Connected,
            Event::MsgRecived(msg) => ClientEventView::MsgRecived(msg@),
            Event::ServerRes(res) => ClientEventView::ServerRes(res@),
        }
    }
}

/// What the window asks of the connection.
#[derive(Debug, PartialEq, Eq)]
pub enum Input {
    /// Send this message.
    MsgType(MsgType),
    /// Send the image in this file as a chat message of this user, under
    /// this token.
    ReadImgFile(PathBuf, String, String),
}

/// View of [`Input`].
pub enum InputView {
    MsgType(MsgView),
    ReadImgFile(PathBuf, Seq<char>, Seq<char>),
}

impl View for Input {
    type V = InputView;

    open spec fn view(&self) -> InputView {
        match self {
            Input::MsgType(msg) => InputView::MsgType(msg@),
            Input::ReadImgFile(path, username, token) => InputView::ReadImgFile(
                *path,
                username@,
                token@,
            ),
        }
    }
}

/// The view of a request that may or may not be there.
pub open spec fn request_view(request: Option<Input>) -> Option<InputView> {
    match request {
        Some(input) => Some(input@),
        None => None,
    }
}

/// What a client reports of a message it received: a relayed chat message
/// and a response are reported, everything else is passed over.
pub open spec fn reported(msg: MsgView) -> Option<ClientEventView> {
    match msg {
        MsgView::MsgIn(msg) => Some(ClientEventView::MsgRecived(msg)),
        MsgView::Server(res) => Some(ClientEventView::ServerRes(res)),
        _ => None,
    }
}

/// What a sender sees of its own chat message: the message without its
/// token, as the server relays it to the others.
pub open spec fn echo_of(msg: UserMsgView) -> ServerMsgView {
    ServerMsgView { username: msg.username, data: msg.data }
}

/// The chat message that carries an image.
pub open spec fn image_message_of(username: Seq<char>, token: Seq<char>, image: Seq<u8>) -> MsgView {
    MsgView::MsgOut(UserMsgView { username, data: DataView::Image(image), token })
}

/// What the client reports of a message it received.
pub fn received(msg: MsgType) -> (event: Option<Event>)
    ensures
        match event {
            Some(event) => reported(msg@) == Some(event@),
            None => reported(msg@) is None,
        },
{
    match msg {
        MsgType::MsgIn(msg) => Some(Event::MsgRecived(msg)),
        MsgType::Server(res) => Some(Event::ServerRes(res)),
        _ => None,
    }
}

/// What a sender sees of its own chat message.
pub fn echo(msg: UserMsg) -> (seen: ServerMsg)
    ensures
        seen@ == echo_of(msg@),
{
    ServerMsg { username: msg.username, data: msg.data }
}

/// The chat message that carries the image read from a file.
pub fn image_message(username: String, token: String, image: Vec<u8>) -> (msg: MsgType)
    ensures
        msg@ == image_message_of(username@, token@, image@),
{
    MsgType::MsgOut(UserMsg { username, data: MsgDataType::Image(image), token })
}

// ---------------------------------------------------------------------
// The link to the server
// ---------------------------------------------------------------------
/// Whether there is a connection to the server.
#[derive(Debug, Clone, Copy, PartialEq, Eq)]
pub enum Link {
    Disconnected,
    Connected,
}

/// What happened to the link.
#[derive(Debug, PartialEq, Eq)]
pub enum LinkEvent {
    /// Everything asked for has been done.
    Idle,
    /// A connection was made.
    ConnectOk,
    /// No connection could be made.
    ConnectFailed,
    /// The body of a frame was read.
    Frame(Vec<u8>),
    /// A read found the socket closed, or failed.
    ReadFailed,
    /// The window asks for something.
    Request(Input),
    /// The file of an image was read: user, token, content.
    ImageRead(String, String, Vec<u8>),
    /// A write failed.
    WriteFailed,
}

/// View of [`LinkEvent`].
pub enum LinkEventView {
    Idle,
    ConnectOk,
    ConnectFailed,
    Frame(Seq<u8>),
    ReadFailed,
    Request(InputView),
    ImageRead(Seq<char>, Seq<char>, Seq<u8>),
    WriteFailed,
}

impl View for LinkEvent {
    type V = LinkEventView;

    open spec fn view(&self) -> LinkEventView {
        match self {
            LinkEvent::Idle => LinkEventView::Idle,
            LinkEvent::ConnectOk => LinkEventView::ConnectOk,
            LinkEvent::ConnectFailed => LinkEventView::ConnectFailed,
            LinkEvent::Frame(body) => LinkEventView::Frame(body@),
            LinkEvent::ReadFailed => LinkEventView::ReadFailed,
            LinkEvent::Request(input) => LinkEventView::Request(input@),
            LinkEvent::ImageRead(username, token, image) => LinkEventView::ImageRead(
                username@,
                token@,
                image@,
            ),
            LinkEvent::WriteFailed => LinkEventView::WriteFailed,
        }
    }
}

/// What is to be done about the link.
#[derive(Debug, PartialEq, Eq)]
pub enum LinkAction {
    /// Try to connect to the server.
    Connect,
    /// Wait a second, then report to the window that the connection failed.
    WaitThenReport,
    /// Report to the window.
    Report(Event),
    /// Write the frame to the socket.
    Write(Vec<u8>),
    /// Read the image in this file, for a chat message of this user under
    /// this token.
    ReadFile(PathBuf, String, String),
}

/// View of [`LinkAction`].
pub enum LinkActionView {
    Connect,
    WaitThenReport,
    Report(ClientEventView),
    Write(Seq<u8>),
    ReadFile(PathBuf, Seq<char>, Seq<char>),
}

impl View for LinkAction {
    type V = LinkActionView;

    open spec fn view(&self) -> LinkActionView {
        match self {
            LinkAction::Connect => LinkActionView::Connect,
            LinkAction::WaitThenReport => LinkActionView::WaitThenReport,
            LinkAction::Report(event) => LinkActionView::Report(event@),
            LinkAction::Write(frame) => LinkActionView::Write(frame@),
            LinkAction::ReadFile(path, username, token) => LinkActionView::ReadFile(
                *path,
                username@,
                token@,
            ),
        }
    }
}

/// The views of a run of actions.
pub open spec fn actions_view(actions: Seq<LinkAction>) -> Seq<LinkActionView> {
    actions.map_values(|action: LinkAction| action@)
}

/// What a link that has lost its connection does: it tells the window.
pub open spec fn link_lost() -> (Link, Seq<LinkActionView>) {
    (Link::Disconnected, seq![LinkActionView::Report(ClientEventView::FailConnection)])
}

/// What a connected link does about a body it has read: a message that
/// concerns the window is reported, any other is passed over, and a body
/// that is no message costs the connection.
pub open spec fn frame_step(body: Seq<u8>) -> (Link, Seq<LinkActionView>) {
    match decoded(body) {
        Some(msg) => (Link::Connected, match reported(msg) {
            Some(event) => seq![LinkActionView::Report(event)],
            None => Seq::empty(),
        }),
        None => link_lost(),
    }
}

/// What a connected link does about an image that has been read from its
/// file: the chat message that carries it is written, and then shown to the
/// sender, whom the server does not send it back to.
pub open spec fn image_step(username: Seq<char>, token: Seq<char>, image: Seq<u8>) -> (
    Link,
    Seq<LinkActionView>,
) {
    let sent = UserMsgView { username, data: DataView::Image(image), token };
    (
        Link::Connected,
        seq![
            LinkActionView::Write(framed(msg_bytes(MsgView::MsgOut(sent)))),
            LinkActionView::Report(ClientEventView::MsgRecived(echo_of(sent))),
        ],
    )
}

/// The transition function of the link: the state that follows and what is
/// to be done, in order, for every state and event.
///
/// Without a connection the link tries to connect whenever nothing else is
/// left to do, and after a failed attempt it waits before it tells the
/// window. With a connection it reports what arrives, writes what the
/// window asks for, and gives the connection up on a failed read, a failed
/// write or a body that is no message. An event that does not belong to the
/// state changes nothing and calls for nothing.
pub open spec fn link_step_spec(state: Link, event: LinkEventView) -> (
    Link,
    Seq<LinkActionView>,
) {
    match state {
        Link::Disconnected => match event {
            LinkEventView::Idle => (Link::Disconnected, seq![LinkActionView::Connect]),
            LinkEventView::ConnectOk => (
                Link::Connected,
                seq![LinkActionView::Report(ClientEventView::Connected)],
            ),
            LinkEventView::ConnectFailed => (
                Link::Disconnected,
                seq![LinkActionView::WaitThenReport],
            ),
            _ => (Link::Disconnected, Seq::empty()),
        },
        Link::Connected => match event {
            LinkEventView::Frame(body) => frame_step(body),
            LinkEventView::ReadFailed => link_lost(),
            LinkEventView::WriteFailed => link_lost(),
            LinkEventView::Request(InputView::MsgType(msg)) => (
                Link::Connected,
                seq![LinkActionView::Write(framed(msg_bytes(msg)))],
            ),
            LinkEventView::Request(InputView::ReadImgFile(path, username, token)) => (
                Link::Connected,
                seq![LinkActionView::ReadFile(path, username, token)],
            ),
            LinkEventView::ImageRead(username, token, image) => image_step(
                username,
                token,
                image,
            ),
            _ => (Link::Connected, Seq::empty()),
        },
    }
}

/// Takes in what happened to the link: the state that follows and what is
/// to be done, in order.
pub fn link_step(state: Link, event: LinkEvent) -> (r: (Link, Vec<LinkAction>))
    ensures
        (r.0, actions_view(r.1@)) == link_step_spec(state, event@),
{
    let mut actions: Vec<LinkAction> = Vec::new();
    let next = match state {
        Link::Disconnected => match event {
            LinkEvent::Idle => {
                actions.push(LinkAction::Connect);
                Link::Disconnected
            },
            LinkEvent::ConnectOk => {
                actions.push(LinkAction::Report(Event::Connected));
                Link::Connected
            },
            LinkEvent::ConnectFailed => {
                actions.push(LinkAction::WaitThenReport);
                Link::Disconnected
            },
            _ => Link::Disconnected,
        },
        Link::Connected => match event {
            LinkEvent::Frame(body) => match decode_msg_type(&body) {
                Ok(msg) => {
                    match received(msg) {
                        Some(event) => {
                            actions.push(LinkAction::Report(event));
                        },
                        None => {},
                    }
                    Link::Connected
                },
                Err(_) => {
                    actions.push(LinkAction::Report(Event::FailConnection));
                    Link::Disconnected
                },
            },
            LinkEvent::ReadFailed => {
                actions.push(LinkAction::Report(Event::FailConnection));
                Link::Disconnected
            },
            LinkEvent::WriteFailed => {
                actions.push(LinkAction::Report(Event::FailConnection));
                Link::Disconnected
            },
            LinkEvent::Request(Input::MsgType(msg)) => {
                actions.push(LinkAction::Write(encode_msg_type(&msg)));
                Link::Connected
            },
            LinkEvent::Request(Input::ReadImgFile(path, username, token)) => {
                actions.push(LinkAction::ReadFile(path, username, token));
                Link::Connected
            },
            LinkEvent::ImageRead(username, token, image) => {
                let msg = image_message(username, token, image);
                actions.push(LinkAction::Write(encode_msg_type(&msg)));
                if let MsgType::MsgOut(sent) = msg {
                    actions.push(LinkAction::Report(Event::MsgRecived(echo(sent))));
                }
                Link::Connected
            },
            _ => Link::Connected,
        },
    };
    assert(actions_view(actions@) =~= link_step_spec(state, event@).1);
    (next, actions)
}

} // verus!
