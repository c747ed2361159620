//! The messages that clients and the server exchange, and their
//! mathematical views.

use vstd::prelude::*;

verus! {

/// What a chat message carries.
#[derive(Debug, Clone, PartialEq, Eq)]
pub enum MsgDataType {
    Text(String),
    Image(Vec<u8>),
}

/// A chat message on its way from a client to the server, with the token
/// that entitles the client to have it relayed.
#[derive(Debug, Clone, PartialEq, Eq)]
pub struct UserMsg {
    pub username: String,
    pub data: MsgDataType,
    pub token: String,
}

/// A chat message as the server relays it to the other clients.
#[derive(Debug, Clone, PartialEq, Eq)]
pub struct ServerMsg {
    pub username: String,
    pub data: MsgDataType,
}

/// The credentials of a login or a signup.
#[derive(Debug, Clone, PartialEq, Eq)]
pub struct LoginMsg {
    pub username: String,
    pub password: String,
}

/// A freshly issued token and the name of the user it was issued to.
#[derive(Debug, Clone, PartialEq, Eq)]
pub struct TokenMsg {
    pub token: String,
    pub username: String,
}

/// What the server answers to the one connection that asked.
#[derive(Debug, Clone, PartialEq, Eq)]
pub enum ServerRes {
    Error(String),
    UserToken(TokenMsg),
    UserCreated,
}

/// Every message of the protocol.
#[derive(Debug, Clone, PartialEq, Eq)]
pub enum MsgType {
    MsgIn(ServerMsg),
    MsgOut(UserMsg),
    Login(LoginMsg),
    Signup(LoginMsg),
    Server(ServerRes),
}

/// View of [`MsgDataType`].
pub enum DataView {
    Text(Seq<char>),
    Image(Seq<u8>),
}

/// View of [`UserMsg`].
pub struct UserMsgView {
    pub username: Seq<char>,
    pub data: DataView,
    pub token: Seq<char>,
}

/// View of [`ServerMsg`].
pub struct ServerMsgView {
    pub username: Seq<char>,
    pub data: DataView,
}

/// View of [`LoginMsg`].
pub struct LoginMsgView {
    pub username: Seq<char>,
    pub password: Seq<char>,
}

/// View of [`TokenMsg`].
pub struct TokenMsgView {
    pub token: Seq<char>,
    pub username: Seq<char>,
}

/// View of [`ServerRes`].
pub enum ResView {
    Error(Seq<char>),
    UserToken(TokenMsgView),
    UserCreated,
}

/// View of [`MsgType`].
pub enum MsgView {
    MsgIn(ServerMsgView),
    MsgOut(UserMsgView),
    Login(LoginMsgView),
    Signup(LoginMsgView),
    Server(ResView),
}

impl View for MsgDataType {
    type V = DataView;

    open spec fn view(&self) -> DataView {
        match self {
            MsgDataType::Text(text) => DataView::Text(text@),
            MsgDataType::Image(bytes) => DataView::Image(bytes@),
        }
    }
}

impl View for UserMsg {
    type V = UserMsgView;

    open spec fn view(&self) -> UserMsgView {
        UserMsgView { username: self.username@, data: self.data@, token: self.token@ }
    }
}

impl View for ServerMsg {
    type V = ServerMsgView;

    open spec fn view(&self) -> ServerMsgView {
        ServerMsgView { username: self.username@, data: self.data@ }
    }
}

impl View for LoginMsg {
    type V = LoginMsgView;

    open spec fn view(&self) -> LoginMsgView {
        LoginMsgView { username: self.username@, password: self.password@ }
    }
}

impl View for TokenMsg {
    type V = TokenMsgView;

    open spec fn view(&self) -> TokenMsgView {
        TokenMsgView { token: self.token@, username: self.username@ }
    }
}

impl View for ServerRes {
    type V = ResView;

    open spec fn view(&self) -> ResView {
        match self {
            ServerRes::Error(text) => ResView::Error(text@),
            ServerRes::UserToken(token) => ResView::UserToken(token@),
            ServerRes::UserCreated => ResView::UserCreated,
        }
    }
}

impl View for MsgType {
    type V = MsgView;

    open spec fn view(&self) -> MsgView {
        match self {
            MsgType::MsgIn(msg) => MsgView::MsgIn(msg@),
            MsgType::MsgOut(msg) => MsgView::MsgOut(msg@),
            MsgType::Login(creds) => MsgView::Login(creds@),
            MsgType::Signup(creds) => MsgView::Signup(creds@),
            MsgType::Server(res) => MsgView::Server(res@),
        }
    }
}

} // verus!
