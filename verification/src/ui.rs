//! The state of the client's window and how it changes: which form is
//! shown, what has been typed, what has been said, and which requests go to
//! the connection. Drawing the window is left to the program.

use crate::client::{request_view, ClientEventView, Event, Input, InputView};
use crate::message::{
    DataView, LoginMsg, LoginMsgView, MsgDataType, MsgType, MsgView, ResView, ServerMsg,
    ServerMsgView, ServerRes, UserMsg, UserMsgView,
};
use vstd::prelude::*;
use vstd::string::*;
use vstd::utf8::*;

verus! {

/// The longest user name that can be typed, in characters.
pub const MAX_USERNAME_LEN: usize = 30;

/// The longest password that can be typed, in bytes of UTF-8.
pub const MAX_PASSWORD_LEN: usize = 80;

/// Shown where a form is submitted with an empty field.
pub const MSG_EMPTY_FIELD: &'static str = "Username or password cannot be empty";

/// What the window shows.
#[derive(Debug, Clone, Copy, PartialEq, Eq)]
pub enum Views {
    SignupForm,
    LoginForm,
    Chat,
}

/// What can happen to the window.
#[derive(Debug, PartialEq, Eq)]
pub enum Messages {
    /// The connection reports something.
    Subscription(Event),
    /// The chat line was edited.
    NewMessageInput(String),
    /// The name field was edited.
    UsernameInput(String),
    /// The password field was edited.
    PasswordInput(String),
    /// Another form was asked for.
    ChangeView(Views),
    /// The chat line was sent off.
    SubmitNewMessage,
    /// The signup form was sent off.
    SubmitSignupForm,
    /// The login form was sent off.
    SubmitLoginForm,
}

/// View of [`Messages`].
pub enum MessagesView {
    Subscription(ClientEventView),
    NewMessageInput(Seq<char>),
    UsernameInput(Seq<char>),
    PasswordInput(Seq<char>),
    ChangeView(Views),
    SubmitNewMessage,
    SubmitSignupForm,
    SubmitLoginForm,
}

impl View for Messages {
    type V = MessagesView;

    open spec fn view(&self) -> MessagesView {
        match self {
            Messages::Subscription(event) => MessagesView::Subscription(event@),
            Messages::NewMessageInput(text) => MessagesView::NewMessageInput(text@),
            Messages::UsernameInput(text) => MessagesView::UsernameInput(text@),
            Messages::PasswordInput(text) => MessagesView::PasswordInput(text@),
            Messages::ChangeView(view) => MessagesView::ChangeView(*view),
            Messages::SubmitNewMessage => MessagesView::SubmitNewMessage,
            Messages::SubmitSignupForm => MessagesView::SubmitSignupForm,
            Messages::SubmitLoginForm => MessagesView::SubmitLoginForm,
        }
    }
}

/// The state of the window.
#[derive(Debug, PartialEq, Eq)]
pub struct RustyChat {
    /// The chat so far, the user's own messages among it.
    pub messages: Vec<ServerMsg>,
    /// The chat line as typed so far.
    pub new_message_input: String,
    /// Whether there has ever been a connection to hand requests to.
    pub has_sender: bool,
    /// Whether the connection is down.
    pub disconected: bool,
    /// Whether a form is on its way to the server.
    pub loading: bool,
    pub view: Views,
    pub username: String,
    pub password: String,
    pub error_msg: String,
    /// The token of the logged-in user.
    pub token: String,
}

/// View of [`RustyChat`].
pub struct RustyChatView {
    pub messages: Seq<ServerMsgView>,
    pub new_message_input: Seq<char>,
    pub has_sender: bool,
    pub disconected: bool,
    pub loading: bool,
    pub view: Views,
    pub username: Seq<char>,
    pub password: Seq<char>,
    pub error_msg: Seq<char>,
    pub token: Seq<char>,
}

impl View for RustyChat {
    type V = RustyChatView;

    open spec fn view(&self) -> RustyChatView {
        RustyChatView {
            messages: self.messages@.map_values(|msg: ServerMsg| msg@),
            new_message_input: self.new_message_input@,
            has_sender: self.has_sender,
            disconected: self.disconected,
            loading: self.loading,
            view: self.view,
            username: self.username@,
            password: self.password@,
            error_msg: self.error_msg@,
            token: self.token@,
        }
    }
}

/// The window as it opens: the login form, nothing typed, no connection.
pub open spec fn opened() -> RustyChatView {
    RustyChatView {
        messages: Seq::empty(),
        new_message_input: Seq::empty(),
        has_sender: false,
        disconected: true,
        loading: false,
        view: Views::LoginForm,
        username: Seq::empty(),
        password: Seq::empty(),
        error_msg: Seq::empty(),
        token: Seq::empty(),
    }
}

/// The window with name, password and error wiped.
pub open spec fn cleared(state: RustyChatView) -> RustyChatView {
    RustyChatView {
        username: Seq::empty(),
        password: Seq::empty(),
        error_msg: Seq::empty(),
        ..state
    }
}

/// The window after the connection has reported something.
pub open spec fn after_event(state: RustyChatView, event: ClientEventView) -> RustyChatView {
    match event {
        ClientEventView::FailConnection => RustyChatView { disconected: true, ..state },
        ClientEventView::Connected => RustyChatView {
            has_sender: true,
            disconected: false,
            ..state
        },
        ClientEventView::MsgRecived(msg) => RustyChatView {
            messages: state.messages.push(msg),
            ..state
        },
        ClientEventView::ServerRes(res) => match res {
            ResView::Error(text) => RustyChatView {
                username: Seq::empty(),
                password: Seq::empty(),
                error_msg: text,
                loading: false,
                ..state
            },
            ResView::UserToken(token) => RustyChatView {
                token: token.token,
                username: token.username,
                view: Views::Chat,
                loading: false,
                ..cleared(state)
            },
            ResView::UserCreated => RustyChatView {
                view: Views::LoginForm,
                loading: false,
                ..cleared(state)
            },
        },
    }
}

/// The window after the chat line was sent off, and the request that goes
/// to the connection. An empty line is not sent. The line is shown among
/// the chat at once, since the server does not send it back.
pub open spec fn after_chat_line(state: RustyChatView) -> (RustyChatView, Option<InputView>) {
    if state.new_message_input.len() == 0 {
        (state, None)
    } else if state.has_sender {
        let data = DataView::Text(state.new_message_input);
        (
            RustyChatView {
                messages: state.messages.push(
                    ServerMsgView { username: state.username, data },
                ),
                new_message_input: Seq::empty(),
                ..state
            },
            Some(
                InputView::MsgType(
                    MsgView::MsgOut(
                        UserMsgView { username: state.username, data, token: state.token },
                    ),
                ),
            ),
        )
    } else {
        (RustyChatView { new_message_input: Seq::empty(), ..state }, None)
    }
}

/// The window after a form was sent off, and the request that goes to the
/// connection: `request` made of the name and the password as typed. A form
/// with an empty field is not sent.
pub open spec fn after_form(
    state: RustyChatView,
    request: spec_fn(LoginMsgView) -> MsgView,
) -> (RustyChatView, Option<InputView>) {
    if state.username.len() == 0 || state.password.len() == 0 {
        (RustyChatView { error_msg: MSG_EMPTY_FIELD@, ..state }, None)
    } else {
        (RustyChatView { loading: true, ..state }, if state.has_sender {
            Some(
                InputView::MsgType(
                    request(LoginMsgView { username: state.username, password: state.password }),
                ),
            )
        } else {
            None
        })
    }
}

/// The window after something has happened to it, and the request that
/// goes to the connection, if one does.
pub open spec fn updated(state: RustyChatView, message: MessagesView) -> (
    RustyChatView,
    Option<InputView>,
) {
    match message {
        MessagesView::Subscription(event) => (after_event(state, event), None),
        MessagesView::NewMessageInput(text) => (
            RustyChatView { new_message_input: text, ..state },
            None,
        ),
        MessagesView::UsernameInput(text) => (if text.len() <= MAX_USERNAME_LEN {
            RustyChatView { username: text, ..state }
        } else {
            state
        }, None),
        MessagesView::PasswordInput(text) => (if encode_utf8(text).len() <= MAX_PASSWORD_LEN {
            RustyChatView { password: text, ..state }
        } else {
            state
        }, None),
        MessagesView::ChangeView(view) => (RustyChatView { view, ..cleared(state) }, None),
        MessagesView::SubmitNewMessage => after_chat_line(state),
        MessagesView::SubmitSignupForm => after_form(
            state,
            |creds: LoginMsgView| MsgView::Signup(creds),
        ),
        MessagesView::SubmitLoginForm => after_form(
            state,
            |creds: LoginMsgView| MsgView::Login(creds),
        ),
    }
}

impl RustyChat {
    /// The window as it opens.
    pub fn new() -> (state: RustyChat)
        ensures
            state@ == opened(),
    {
        let state = RustyChat {
            messages: Vec::new(),
            new_message_input: String::new(),
            has_sender: false,
            disconected: true,
            loading: false,
            view: Views::LoginForm,
            username: String::new(),
            password: String::new(),
            error_msg: String::new(),
            token: String::new(),
        };
        assert(state@.messages =~= Seq::<ServerMsgView>::empty());
        state
    }

    /// The title of the window.
    pub fn title(&self) -> (title: String)
        ensures
            title@ == "RustyChat"@,
    {
        "RustyChat".to_owned()
    }

    /// Wipes name, password and error.
    pub fn clear(&mut self)
        ensures
            final(self)@ == cleared(old(self)@),
    {
        self.username = String::new();
        self.password = String::new();
        self.error_msg = String::new();
    }

    fn on_event(&mut self, event: Event)
        ensures
            final(self)@ == after_event(old(self)@, event@),
    {
        match event {
            Event::FailConnection => {
                self.disconected = true;
            },
            Event::Connected => {
                self.has_sender = true;
                self.disconected = false;
            },
            Event::MsgRecived(msg) => {
                self.messages.push(msg);
                assert(self@.messages =~= old(self)@.messages.push(msg@));
            },
            Event::ServerRes(res) => {
                match res {
                    ServerRes::Error(text) => {
                        self.username = String::new();
                        self.password = String::new();
                        self.error_msg = text;
                    },
                    ServerRes::UserToken(token) => {
                        self.clear();
                        self.token = token.token;
                        self.username = token.username;
                        self.view = Views::Chat;
                    },
                    ServerRes::UserCreated => {
                        self.clear();
                        self.view = Views::LoginForm;
                    },
                }
                self.loading = false;
            },
        }
    }

    fn on_chat_line(&mut self) -> (request: Option<Input>)
        ensures
            (final(self)@, request_view(request)) == after_chat_line(old(self)@),
    {
        if self.new_message_input.as_str().is_empty() {
            return None;
        }
        let mut line = String::new();
        std::mem::swap(&mut self.new_message_input, &mut line);
        if !self.has_sender {
            return None;
        }
        let shown = ServerMsg {
            username: self.username.clone(),
            data: MsgDataType::Text(line.clone()),
        };
        let sent = UserMsg {
            username: self.username.clone(),
            data: MsgDataType::Text(line),
            token: self.token.clone(),
        };
        self.messages.push(shown);
        assert(self@.messages =~= old(self)@.messages.push(shown@));
        Some(Input::MsgType(MsgType::MsgOut(sent)))
    }

    fn credentials(&mut self) -> (creds: Option<LoginMsg>)
        ensures
            old(self)@.username.len() == 0 || old(self)@.password.len() == 0 ==> creds is None
                && final(self)@ == (RustyChatView { error_msg: MSG_EMPTY_FIELD@, ..old(self)@ }),
            old(self)@.username.len() != 0 && old(self)@.password.len() != 0 ==> final(self)@ == (
            RustyChatView { loading: true, ..old(self)@ }) && match creds {
                Some(creds) => old(self)@.has_sender && creds@ == (LoginMsgView {
                    username: old(self)@.username,
                    password: old(self)@.password,
                }),
                None => !old(self)@.has_sender,
            },
    {
        if self.username.as_str().is_empty() || self.password.as_str().is_empty() {
            self.error_msg = MSG_EMPTY_FIELD.to_owned();
            return None;
        }
        self.loading = true;
        if self.has_sender {
            Some(LoginMsg { username: self.username.clone(), password: self.password.clone() })
        } else {
            None
        }
    }

    /// Takes in what has happened to the window and hands back the request
    /// that goes to the connection, if one does.
    pub fn update(&mut self, message: Messages) -> (request: Option<Input>)
        ensures
            (final(self)@, request_view(request)) == updated(old(self)@, message@),
    {
        match message {
            Messages::Subscription(event) => {
                self.on_event(event);
                None
            },
            Messages::NewMessageInput(text) => {
                self.new_message_input = text;
                None
            },
            Messages::UsernameInput(text) => {
                if text.as_str().unicode_len() <= MAX_USERNAME_LEN {
                    self.username = text;
                }
                None
            },
            Messages::PasswordInput(text) => {
                if text.as_str().as_bytes().len() <= MAX_PASSWORD_LEN {
                    self.password = text;
                }
                None
            },
            Messages::ChangeView(view) => {
                self.clear();
                self.view = view;
                None
            },
            Messages::SubmitNewMessage => self.on_chat_line(),
            Messages::SubmitSignupForm => match self.credentials() {
                Some(creds) => Some(Input::MsgType(MsgType::Signup(creds))),
                None => None,
            },
            Messages::SubmitLoginForm => match self.credentials() {
                Some(creds) => Some(Input::MsgType(MsgType::Login(creds))),
                None => None,
            },
        }
    }
}

} // verus!
