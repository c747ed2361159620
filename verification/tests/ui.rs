use rusty_chat::client::{Event, Input};
use rusty_chat::message::{
    LoginMsg, MsgDataType, MsgType, ServerMsg, ServerRes, TokenMsg, UserMsg,
};
use rusty_chat::ui::{Messages, RustyChat, Views, MAX_PASSWORD_LEN, MAX_USERNAME_LEN};

fn typed(username: &str, password: &str) -> RustyChat {
    let mut state = RustyChat::new();
    state.update(Messages::UsernameInput(username.to_string()));
    state.update(Messages::PasswordInput(password.to_string()));
    state
}

fn connected(username: &str, password: &str) -> RustyChat {
    let mut state = typed(username, password);
    state.update(Messages::Subscription(Event::Connected));
    state
}

fn logged_in() -> RustyChat {
    let mut state = connected("alice", "pw");
    state.update(Messages::SubmitLoginForm);
    state.update(Messages::Subscription(Event::ServerRes(ServerRes::UserToken(TokenMsg {
        token: "tok".to_string(),
        username: "alice".to_string(),
    }))));
    state
}

fn text(username: &str, line: &str) -> ServerMsg {
    ServerMsg { username: username.to_string(), data: MsgDataType::Text(line.to_string()) }
}

#[test]
fn the_window_opens_on_the_login_form() {
    let state = RustyChat::new();
    assert_eq!(state.view, Views::LoginForm);
    assert!(state.disconected);
    assert!(!state.loading);
    assert!(!state.has_sender);
    assert!(state.messages.is_empty());
    assert_eq!(state.username, "");
    assert_eq!(state.password, "");
    assert_eq!(state.error_msg, "");
    assert_eq!(state.token, "");
    assert_eq!(state.new_message_input, "");
    assert_eq!(state.title(), "RustyChat");
}

#[test]
fn typing_fills_the_fields() {
    let mut state = typed("alice", "pw");
    assert_eq!(state.username, "alice");
    assert_eq!(state.password, "pw");
    assert_eq!(state.update(Messages::NewMessageInput("hel".to_string())), None);
    assert_eq!(state.new_message_input, "hel");
}

#[test]
fn a_name_of_more_than_thirty_characters_is_not_taken() {
    assert_eq!(MAX_USERNAME_LEN, 30);
    let mut state = typed("alice", "pw");
    state.update(Messages::UsernameInput("a".repeat(31)));
    assert_eq!(state.username, "alice");
    state.update(Messages::UsernameInput("a".repeat(30)));
    assert_eq!(state.username, "a".repeat(30));
}

#[test]
fn the_limit_on_a_name_counts_characters_not_bytes() {
    // thirty letters of two bytes each are thirty characters
    let mut state = RustyChat::new();
    state.update(Messages::UsernameInput("é".repeat(30)));
    assert_eq!(state.username, "é".repeat(30));
    state.update(Messages::UsernameInput("é".repeat(31)));
    assert_eq!(state.username, "é".repeat(30));
    // thirty characters of four bytes each
    state.update(Messages::UsernameInput("🙂".repeat(30)));
    assert_eq!(state.username, "🙂".repeat(30));
    state.update(Messages::UsernameInput(format!("{}a", "🙂".repeat(30))));
    assert_eq!(state.username, "🙂".repeat(30));
}

#[test]
fn a_password_of_more_than_eighty_bytes_is_not_taken() {
    assert_eq!(MAX_PASSWORD_LEN, 80);
    let mut state = typed("alice", "pw");
    state.update(Messages::PasswordInput("p".repeat(81)));
    assert_eq!(state.password, "pw");
    state.update(Messages::PasswordInput("p".repeat(80)));
    assert_eq!(state.password, "p".repeat(80));
    // forty letters of two bytes each fit, forty-one do not
    state.update(Messages::PasswordInput("é".repeat(41)));
    assert_eq!(state.password, "p".repeat(80));
    state.update(Messages::PasswordInput("é".repeat(40)));
    assert_eq!(state.password, "é".repeat(40));
}

#[test]
fn the_connection_coming_and_going_is_shown() {
    let mut state = RustyChat::new();
    assert_eq!(state.update(Messages::Subscription(Event::Connected)), None);
    assert!(!state.disconected);
    assert!(state.has_sender);
    state.update(Messages::Subscription(Event::FailConnection));
    assert!(state.disconected);
    assert!(state.has_sender);
}

#[test]
fn a_form_with_an_empty_field_is_not_sent() {
    for (username, password) in [("", ""), ("alice", ""), ("", "pw")] {
        let mut state = connected(username, password);
        assert_eq!(state.update(Messages::SubmitLoginForm), None);
        assert_eq!(state.error_msg, "Username or password cannot be empty");
        assert!(!state.loading);
        let mut state = connected(username, password);
        assert_eq!(state.update(Messages::SubmitSignupForm), None);
        assert_eq!(state.error_msg, "Username or password cannot be empty");
        assert!(!state.loading);
    }
}

#[test]
fn the_login_form_sends_a_login() {
    let mut state = connected("alice", "pw");
    assert_eq!(
        state.update(Messages::SubmitLoginForm),
        Some(Input::MsgType(MsgType::Login(LoginMsg {
            username: "alice".to_string(),
            password: "pw".to_string(),
        })))
    );
    assert!(state.loading);
    assert_eq!(state.username, "alice");
}

#[test]
fn the_signup_form_sends_a_signup() {
    let mut state = connected("alice", "pw");
    assert_eq!(
        state.update(Messages::SubmitSignupForm),
        Some(Input::MsgType(MsgType::Signup(LoginMsg {
            username: "alice".to_string(),
            password: "pw".to_string(),
        })))
    );
    assert!(state.loading);
}

#[test]
fn without_a_connection_a_form_is_not_sent() {
    let mut state = typed("alice", "pw");
    assert_eq!(state.update(Messages::SubmitLoginForm), None);
    assert!(state.loading);
    assert_eq!(state.error_msg, "");
}

#[test]
fn a_token_opens_the_chat() {
    let state = logged_in();
    assert_eq!(state.view, Views::Chat);
    assert_eq!(state.token, "tok");
    assert_eq!(state.username, "alice");
    assert_eq!(state.password, "");
    assert_eq!(state.error_msg, "");
    assert!(!state.loading);
}

#[test]
fn a_created_user_is_sent_to_the_login_form() {
    let mut state = connected("alice", "pw");
    state.update(Messages::ChangeView(Views::SignupForm));
    state.update(Messages::UsernameInput("alice".to_string()));
    state.update(Messages::PasswordInput("pw".to_string()));
    state.update(Messages::SubmitSignupForm);
    assert!(state.loading);
    state.update(Messages::Subscription(Event::ServerRes(ServerRes::UserCreated)));
    assert_eq!(state.view, Views::LoginForm);
    assert_eq!(state.username, "");
    assert_eq!(state.password, "");
    assert!(!state.loading);
}

#[test]
fn an_error_is_shown_and_the_fields_are_wiped() {
    let mut state = connected("alice", "pw");
    state.update(Messages::SubmitLoginForm);
    state.update(Messages::Subscription(Event::ServerRes(ServerRes::Error(
        "The username or password are incorrect!.".to_string(),
    ))));
    assert_eq!(state.error_msg, "The username or password are incorrect!.");
    assert_eq!(state.username, "");
    assert_eq!(state.password, "");
    assert_eq!(state.view, Views::LoginForm);
    assert!(!state.loading);
}

#[test]
fn changing_the_form_wipes_the_fields() {
    let mut state = typed("alice", "pw");
    state.update(Messages::SubmitLoginForm);
    state.error_msg = "something".to_string();
    assert_eq!(state.update(Messages::ChangeView(Views::SignupForm)), None);
    assert_eq!(state.view, Views::SignupForm);
    assert_eq!(state.username, "");
    assert_eq!(state.password, "");
    assert_eq!(state.error_msg, "");
}

#[test]
fn clear_wipes_name_password_and_error_only() {
    let mut state = logged_in();
    state.password = "pw".to_string();
    state.error_msg = "oops".to_string();
    state.new_message_input = "half a line".to_string();
    state.clear();
    assert_eq!(state.username, "");
    assert_eq!(state.password, "");
    assert_eq!(state.error_msg, "");
    assert_eq!(state.token, "tok");
    assert_eq!(state.new_message_input, "half a line");
    assert_eq!(state.view, Views::Chat);
}

#[test]
fn a_chat_line_is_sent_and_shown_at_once() {
    let mut state = logged_in();
    state.update(Messages::NewMessageInput("hi".to_string()));
    assert_eq!(
        state.update(Messages::SubmitNewMessage),
        Some(Input::MsgType(MsgType::MsgOut(UserMsg {
            username: "alice".to_string(),
            data: MsgDataType::Text("hi".to_string()),
            token: "tok".to_string(),
        })))
    );
    assert_eq!(state.messages, vec![text("alice", "hi")]);
    assert_eq!(state.new_message_input, "");
}

#[test]
fn an_empty_chat_line_is_not_sent() {
    let mut state = logged_in();
    assert_eq!(state.update(Messages::SubmitNewMessage), None);
    assert!(state.messages.is_empty());
}

#[test]
fn without_a_connection_a_chat_line_is_dropped() {
    let mut state = RustyChat::new();
    state.update(Messages::NewMessageInput("hi".to_string()));
    assert_eq!(state.update(Messages::SubmitNewMessage), None);
    assert!(state.messages.is_empty());
    assert_eq!(state.new_message_input, "");
}

#[test]
fn received_messages_are_added_to_the_chat_in_order() {
    let mut state = logged_in();
    state.update(Messages::Subscription(Event::MsgRecived(text("bob", "one"))));
    state.update(Messages::NewMessageInput("two".to_string()));
    state.update(Messages::SubmitNewMessage);
    state.update(Messages::Subscription(Event::MsgRecived(text("bob", "three"))));
    assert_eq!(
        state.messages,
        vec![text("bob", "one"), text("alice", "two"), text("bob", "three")]
    );
}
