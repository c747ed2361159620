//! The binary encoding of messages.
//!
//! A message is written without any field names: an enum as the number of
//! its variant followed by the variant's fields in order, a number as a
//! varint, a text as the length of its UTF-8 bytes followed by those bytes,
//! a byte string as its length followed by the bytes.

use crate::frame::{encode_bytes, framed, lemma_framed_body, MSG_SIZE_BYTES};
use crate::message::{
    DataView, LoginMsg, LoginMsgView, MsgDataType, MsgType, MsgView, ResView, ServerMsg,
    ServerMsgView, ServerRes, TokenMsg, TokenMsgView, UserMsg, UserMsgView,
};
use crate::varint::{
    lemma_all_ones_of_word_sizes, lemma_take_varint_shrinks, lemma_varint_round_trip, put_varint,
    take_varint, take_varint_at, varint,
};
use vstd::prelude::*;
use vstd::slice::{slice_subrange, slice_to_vec};
use vstd::string::*;
use vstd::utf8::*;

verus! {

/// A body that is no message: it ends too early, holds a length or a number
/// that cannot be read, text that is not UTF-8, or a variant that does not
/// exist.
#[derive(Debug, Clone, Copy, PartialEq, Eq)]
pub struct ProtocolError;

// ---------------------------------------------------------------------
// What is written
// ---------------------------------------------------------------------
/// A byte string on the wire: its length, then the bytes.
pub open spec fn blob_bytes(bytes: Seq<u8>) -> Seq<u8> {
    varint(bytes.len()) + bytes
}

/// A text on the wire: its UTF-8 bytes as a byte string.
pub open spec fn text_bytes(text: Seq<char>) -> Seq<u8> {
    blob_bytes(encode_utf8(text))
}

/// The payload of a chat message on the wire.
pub open spec fn data_bytes(data: DataView) -> Seq<u8> {
    match data {
        DataView::Text(text) => varint(0) + text_bytes(text),
        DataView::Image(bytes) => varint(1) + blob_bytes(bytes),
    }
}

/// A relayed chat message on the wire.
pub open spec fn server_msg_bytes(msg: ServerMsgView) -> Seq<u8> {
    text_bytes(msg.username) + data_bytes(msg.data)
}

/// A chat message from a client on the wire.
pub open spec fn user_msg_bytes(msg: UserMsgView) -> Seq<u8> {
    text_bytes(msg.username) + data_bytes(msg.data) + text_bytes(msg.token)
}

/// Credentials on the wire.
pub open spec fn login_bytes(creds: LoginMsgView) -> Seq<u8> {
    text_bytes(creds.username) + text_bytes(creds.password)
}

/// An issued token on the wire.
pub open spec fn token_msg_bytes(token: TokenMsgView) -> Seq<u8> {
    text_bytes(token.token) + text_bytes(token.username)
}

/// A server response on the wire.
pub open spec fn res_bytes(res: ResView) -> Seq<u8> {
    match res {
        ResView::Error(text) => varint(0) + text_bytes(text),
        ResView::UserToken(token) => varint(1) + token_msg_bytes(token),
        ResView::UserCreated => varint(2),
    }
}

/// A message on the wire, without its length prefix.
pub open spec fn msg_bytes(msg: MsgView) -> Seq<u8> {
    match msg {
        MsgView::MsgIn(msg) => varint(0) + server_msg_bytes(msg),
        MsgView::MsgOut(msg) => varint(1) + user_msg_bytes(msg),
        MsgView::Login(creds) => varint(2) + login_bytes(creds),
        MsgView::Signup(creds) => varint(3) + login_bytes(creds),
        MsgView::Server(res) => varint(4) + res_bytes(res),
    }
}

// ---------------------------------------------------------------------
// What is read
// ---------------------------------------------------------------------
/// Reads the number of a variant.
pub open spec fn take_tag(s: Seq<u8>) -> Option<(nat, Seq<u8>)> {
    take_varint(s, u32::MAX as nat)
}

/// Reads a byte string: a length that fits the machine's word, and as many
/// bytes as it says.
pub open spec fn take_blob(s: Seq<u8>) -> Option<(Seq<u8>, Seq<u8>)> {
    match take_varint(s, usize::MAX as nat) {
        Some((len, rest)) => if len <= rest.len() {
            Some((rest.take(len as int), rest.skip(len as int)))
        } else {
            None
        },
        None => None,
    }
}

/// Reads a text: a byte string that is well-formed UTF-8.
pub open spec fn take_text(s: Seq<u8>) -> Option<(Seq<char>, Seq<u8>)> {
    match take_blob(s) {
        Some((bytes, rest)) => if valid_utf8(bytes) {
            Some((decode_utf8(bytes), rest))
        } else {
            None
        },
        None => None,
    }
}

/// Reads the payload of a chat message.
pub open spec fn take_data(s: Seq<u8>) -> Option<(DataView, Seq<u8>)> {
    match take_tag(s) {
        Some((tag, rest)) => if tag == 0 {
            match take_text(rest) {
                Some((text, rest)) => Some((DataView::Text(text), rest)),
                None => None,
            }
        } else if tag == 1 {
            match take_blob(rest) {
                Some((bytes, rest)) => Some((DataView::Image(bytes), rest)),
                None => None,
            }
        } else {
            None
        },
        None => None,
    }
}

/// Reads a relayed chat message.
pub open spec fn take_server_msg(s: Seq<u8>) -> Option<(ServerMsgView, Seq<u8>)> {
    match take_text(s) {
        Some((username, rest)) => match take_data(rest) {
            Some((data, rest)) => Some((ServerMsgView { username, data }, rest)),
            None => None,
        },
        None => None,
    }
}

/// Reads a chat message from a client.
pub open spec fn take_user_msg(s: Seq<u8>) -> Option<(UserMsgView, Seq<u8>)> {
    match take_server_msg(s) {
        Some((head, rest)) => match take_text(rest) {
            Some((token, rest)) => Some(
                (UserMsgView { username: head.username, data: head.data, token }, rest),
            ),
            None => None,
        },
        None => None,
    }
}

/// Reads credentials.
pub open spec fn take_login(s: Seq<u8>) -> Option<(LoginMsgView, Seq<u8>)> {
    match take_text(s) {
        Some((username, rest)) => match take_text(rest) {
            Some((password, rest)) => Some((LoginMsgView { username, password }, rest)),
            None => None,
        },
        None => None,
    }
}

/// Reads an issued token.
pub open spec fn take_token_msg(s: Seq<u8>) -> Option<(TokenMsgView, Seq<u8>)> {
    match take_text(s) {
        Some((token, rest)) => match take_text(rest) {
            Some((username, rest)) => Some((TokenMsgView { token, username }, rest)),
            None => None,
        },
        None => None,
    }
}

/// Reads a server response.
pub open spec fn take_res(s: Seq<u8>) -> Option<(ResView, Seq<u8>)> {
    match take_tag(s) {
        Some((tag, rest)) => if tag == 0 {
            match take_text(rest) {
                Some((text, rest)) => Some((ResView::Error(text), rest)),
                None => None,
            }
        } else if tag == 1 {
            match take_token_msg(rest) {
                Some((token, rest)) => Some((ResView::UserToken(token), rest)),
                None => None,
            }
        } else if tag == 2 {
            Some((ResView::UserCreated, rest))
        } else {
            None
        },
        None => None,
    }
}

/// Reads a message.
pub open spec fn take_msg(s: Seq<u8>) -> Option<(MsgView, Seq<u8>)> {
    match take_tag(s) {
        Some((tag, rest)) => if tag == 0 {
            match take_server_msg(rest) {
                Some((msg, rest)) => Some((MsgView::MsgIn(msg), rest)),
                None => None,
            }
        } else if tag == 1 {
            match take_user_msg(rest) {
                Some((msg, rest)) => Some((MsgView::MsgOut(msg), rest)),
                None => None,
            }
        } else if tag == 2 {
            match take_login(rest) {
                Some((creds, rest)) => Some((MsgView::Login(creds), rest)),
                None => None,
            }
        } else if tag == 3 {
            match take_login(rest) {
                Some((creds, rest)) => Some((MsgView::Signup(creds), rest)),
                None => None,
            }
        } else if tag == 4 {
            match take_res(rest) {
                Some((res, rest)) => Some((MsgView::Server(res), rest)),
                None => None,
            }
        } else {
            None
        },
        None => None,
    }
}

/// The message that a body stands for, if it stands for one. Bytes behind
/// the message are not looked at.
pub open spec fn decoded(body: Seq<u8>) -> Option<MsgView> {
    match take_msg(body) {
        Some((msg, _)) => Some(msg),
        None => None,
    }
}
// ---------------------------------------------------------------------
// Writing
// ---------------------------------------------------------------------
fn put_blob(out: &mut Vec<u8>, bytes: &[u8])
    ensures
        final(out)@ == old(out)@ + blob_bytes(bytes@),
        bytes@.len() <= usize::MAX,
{
    put_varint(out, bytes.len() as u64);
    let mut copy: Vec<u8> = slice_to_vec(bytes);
    out.append(&mut copy);
    assert(out@ =~= old(out)@ + blob_bytes(bytes@));
}

fn put_text(out: &mut Vec<u8>, text: &str)
    ensures
        final(out)@ == old(out)@ + text_bytes(text@),
        text_fits(text@),
{
    put_blob(out, text.as_bytes());
}

fn put_data(out: &mut Vec<u8>, data: &MsgDataType)
    ensures
        final(out)@ == old(out)@ + data_bytes(data@),
        data_fits(data@),
{
    match data {
        MsgDataType::Text(text) => {
            put_varint(out, 0);
            put_text(out, text.as_str());
        },
        MsgDataType::Image(bytes) => {
            put_varint(out, 1);
            put_blob(out, bytes.as_slice());
        },
    }
    assert(out@ =~= old(out)@ + data_bytes(data@));
}

fn put_server_msg(out: &mut Vec<u8>, msg: &ServerMsg)
    ensures
        final(out)@ == old(out)@ + server_msg_bytes(msg@),
        text_fits(msg@.username) && data_fits(msg@.data),
{
    put_text(out, msg.username.as_str());
    put_data(out, &msg.data);
    assert(out@ =~= old(out)@ + server_msg_bytes(msg@));
}

fn put_user_msg(out: &mut Vec<u8>, msg: &UserMsg)
    ensures
        final(out)@ == old(out)@ + user_msg_bytes(msg@),
        text_fits(msg@.username) && data_fits(msg@.data) && text_fits(msg@.token),
{
    put_text(out, msg.username.as_str());
    put_data(out, &msg.data);
    put_text(out, msg.token.as_str());
    assert(out@ =~= old(out)@ + user_msg_bytes(msg@));
}

fn put_login(out: &mut Vec<u8>, creds: &LoginMsg)
    ensures
        final(out)@ == old(out)@ + login_bytes(creds@),
        text_fits(creds@.username) && text_fits(creds@.password),
{
    put_text(out, creds.username.as_str());
    put_text(out, creds.password.as_str());
    assert(out@ =~= old(out)@ + login_bytes(creds@));
}

fn put_token_msg(out: &mut Vec<u8>, token: &TokenMsg)
    ensures
        final(out)@ == old(out)@ + token_msg_bytes(token@),
        text_fits(token@.token) && text_fits(token@.username),
{
    put_text(out, token.token.as_str());
    put_text(out, token.username.as_str());
    assert(out@ =~= old(out)@ + token_msg_bytes(token@));
}

fn put_res(out: &mut Vec<u8>, res: &ServerRes)
    ensures
        final(out)@ == old(out)@ + res_bytes(res@),
        res_fits(res@),
{
    match res {
        ServerRes::Error(text) => {
            put_varint(out, 0);
            put_text(out, text.as_str());
        },
        ServerRes::UserToken(token) => {
            put_varint(out, 1);
            put_token_msg(out, token);
        },
        ServerRes::UserCreated => {
            put_varint(out, 2);
        },
    }
    assert(out@ =~= old(out)@ + res_bytes(res@));
}

fn put_msg(out: &mut Vec<u8>, msg: &MsgType)
    ensures
        final(out)@ == old(out)@ + msg_bytes(msg@),
        msg_fits(msg@),
{
    match msg {
        MsgType::MsgIn(msg) => {
            put_varint(out, 0);
            put_server_msg(out, msg);
        },
        MsgType::MsgOut(msg) => {
            put_varint(out, 1);
            put_user_msg(out, msg);
        },
        MsgType::Login(creds) => {
            put_varint(out, 2);
            put_login(out, creds);
        },
        MsgType::Signup(creds) => {
            put_varint(out, 3);
            put_login(out, creds);
        },
        MsgType::Server(res) => {
            put_varint(out, 4);
            put_res(out, res);
        },
    }
    assert(out@ =~= old(out)@ + msg_bytes(msg@));
}

/// The body of a message: its bytes on the wire, without a length prefix.
/// Decoding the body gives the message back.
pub fn encode_body(msg: &MsgType) -> (body: Vec<u8>)
    ensures
        body@ == msg_bytes(msg@),
        msg_fits(msg@),
        decoded(body@) == Some(msg@),
{
    let mut body: Vec<u8> = Vec::new();
    put_msg(&mut body, msg);
    assert(body@ =~= msg_bytes(msg@));
    proof {
        lemma_decode_encode(msg@);
    }
    body
}

/// The frame of a message: the length of its body, then the body. Decoding
/// what stands behind the prefix gives the message back.
pub fn encode_msg_type(msg: &MsgType) -> (frame: Vec<u8>)
    ensures
        frame@ == framed(msg_bytes(msg@)),
        msg_fits(msg@),
        decoded(frame@.skip(MSG_SIZE_BYTES as int)) == Some(msg@),
{
    let body = encode_body(msg);
    proof {
        lemma_framed_body(body@);
    }
    encode_bytes(body)
}

// ---------------------------------------------------------------------
// Reading
// ---------------------------------------------------------------------
/// `core::str::from_utf8`: the text that `bytes` encode where they are
/// well-formed UTF-8, and nothing where they are not.
#[verifier::external_body]
fn utf8_text(bytes: &[u8]) -> (text: Option<&str>)
    ensures
        text is Some <==> valid_utf8(bytes@),
        text matches Some(t) ==> t@ == decode_utf8(bytes@),
{
    core::str::from_utf8(bytes).ok()
}

fn take_tag_at(data: &[u8], at: usize) -> (r: Option<(u32, usize)>)
    requires
        at <= data@.len(),
    ensures
        match r {
            Some((tag, next)) => at <= next <= data@.len() && take_tag(data@.skip(at as int))
                == Some((tag as nat, data@.skip(next as int))),
            None => take_tag(data@.skip(at as int)) is None,
        },
{
    proof {
        lemma_all_ones_of_word_sizes();
    }
    match take_varint_at(data, at, 0xffff_ffff) {
        Some((tag, next)) => Some((tag as u32, next)),
        None => None,
    }
}

fn take_blob_at<'a>(data: &'a [u8], at: usize) -> (r: Option<(&'a [u8], usize)>)
    requires
        at <= data@.len(),
    ensures
        match r {
            Some((bytes, next)) => at <= next <= data@.len() && take_blob(data@.skip(at as int))
                == Some((bytes@, data@.skip(next as int))),
            None => take_blob(data@.skip(at as int)) is None,
        },
{
    proof {
        lemma_all_ones_of_word_sizes();
    }
    match take_varint_at(data, at, usize::MAX as u64) {
        Some((len, start)) => {
            if len > (data.len() - start) as u64 {
                None
            } else {
                let end: usize = start + len as usize;
                let bytes: &[u8] = slice_subrange(data, start, end);
                assert(data@.skip(start as int).take(len as int) =~= bytes@);
                assert(data@.skip(start as int).skip(len as int) =~= data@.skip(end as int));
                Some((bytes, end))
            }
        },
        None => None,
    }
}

fn take_text_at(data: &[u8], at: usize) -> (r: Option<(String, usize)>)
    requires
        at <= data@.len(),
    ensures
        match r {
            Some((text, next)) => at <= next <= data@.len() && take_text(data@.skip(at as int))
                == Some((text@, data@.skip(next as int))),
            None => take_text(data@.skip(at as int)) is None,
        },
{
    match take_blob_at(data, at) {
        Some((bytes, next)) => match utf8_text(bytes) {
            Some(text) => Some((text.to_owned(), next)),
            None => None,
        },
        None => None,
    }
}

fn take_data_at(data: &[u8], at: usize) -> (r: Option<(MsgDataType, usize)>)
    requires
        at <= data@.len(),
    ensures
        match r {
            Some((payload, next)) => at <= next <= data@.len() && take_data(
                data@.skip(at as int),
            ) == Some((payload@, data@.skip(next as int))),
            None => take_data(data@.skip(at as int)) is None,
        },
{
    match take_tag_at(data, at) {
        Some((tag, at)) => if tag == 0 {
            match take_text_at(data, at) {
                Some((text, next)) => Some((MsgDataType::Text(text), next)),
                None => None,
            }
        } else if tag == 1 {
            match take_blob_at(data, at) {
                Some((bytes, next)) => Some((MsgDataType::Image(slice_to_vec(bytes)), next)),
                None => None,
            }
        } else {
            None
        },
        None => None,
    }
}

fn take_server_msg_at(data: &[u8], at: usize) -> (r: Option<(ServerMsg, usize)>)
    requires
        at <= data@.len(),
    ensures
        match r {
            Some((msg, next)) => at <= next <= data@.len() && take_server_msg(
                data@.skip(at as int),
            ) == Some((msg@, data@.skip(next as int))),
            None => take_server_msg(data@.skip(at as int)) is None,
        },
{
    match take_text_at(data, at) {
        Some((username, at)) => match take_data_at(data, at) {
            Some((data, next)) => Some((ServerMsg { username, data }, next)),
            None => None,
        },
        None => None,
    }
}

fn take_user_msg_at(data: &[u8], at: usize) -> (r: Option<(UserMsg, usize)>)
    requires
        at <= data@.len(),
    ensures
        match r {
            Some((msg, next)) => at <= next <= data@.len() && take_user_msg(
                data@.skip(at as int),
            ) == Some((msg@, data@.skip(next as int))),
            None => take_user_msg(data@.skip(at as int)) is None,
        },
{
    match take_server_msg_at(data, at) {
        Some((head, at)) => match take_text_at(data, at) {
            Some((token, next)) => Some(
                (UserMsg { username: head.username, data: head.data, token }, next),
            ),
            None => None,
        },
        None => None,
    }
}

fn take_login_at(data: &[u8], at: usize) -> (r: Option<(LoginMsg, usize)>)
    requires
        at <= data@.len(),
    ensures
        match r {
            Some((creds, next)) => at <= next <= data@.len() && take_login(
                data@.skip(at as int),
            ) == Some((creds@, data@.skip(next as int))),
            None => take_login(data@.skip(at as int)) is None,
        },
{
    match take_text_at(data, at) {
        Some((username, at)) => match take_text_at(data, at) {
            Some((password, next)) => Some((LoginMsg { username, password }, next)),
            None => None,
        },
        None => None,
    }
}

fn take_token_msg_at(data: &[u8], at: usize) -> (r: Option<(TokenMsg, usize)>)
    requires
        at <= data@.len(),
    ensures
        match r {
            Some((token, next)) => at <= next <= data@.len() && take_token_msg(
                data@.skip(at as int),
            ) == Some((token@, data@.skip(next as int))),
            None => take_token_msg(data@.skip(at as int)) is None,
        },
{
    match take_text_at(data, at) {
        Some((token, at)) => match take_text_at(data, at) {
            Some((username, next)) => Some((TokenMsg { token, username }, next)),
            None => None,
        },
        None => None,
    }
}

fn take_res_at(data: &[u8], at: usize) -> (r: Option<(ServerRes, usize)>)
    requires
        at <= data@.len(),
    ensures
        match r {
            Some((res, next)) => at <= next <= data@.len() && take_res(data@.skip(at as int))
                == Some((res@, data@.skip(next as int))),
            None => take_res(data@.skip(at as int)) is None,
        },
{
    match take_tag_at(data, at) {
        Some((tag, at)) => if tag == 0 {
            match take_text_at(data, at) {
                Some((text, next)) => Some((ServerRes::Error(text), next)),
                None => None,
            }
        } else if tag == 1 {
            match take_token_msg_at(data, at) {
                Some((token, next)) => Some((ServerRes::UserToken(token), next)),
                None => None,
            }
        } else if tag == 2 {
            Some((ServerRes::UserCreated, at))
        } else {
            None
        },
        None => None,
    }
}

fn take_msg_at(data: &[u8], at: usize) -> (r: Option<(MsgType, usize)>)
    requires
        at <= data@.len(),
    ensures
        match r {
            Some((msg, next)) => at <= next <= data@.len() && take_msg(data@.skip(at as int))
                == Some((msg@, data@.skip(next as int))),
            None => take_msg(data@.skip(at as int)) is None,
        },
{
    match take_tag_at(data, at) {
        Some((tag, at)) => if tag == 0 {
            match take_server_msg_at(data, at) {
                Some((msg, next)) => Some((MsgType::MsgIn(msg), next)),
                None => None,
            }
        } else if tag == 1 {
            match take_user_msg_at(data, at) {
                Some((msg, next)) => Some((MsgType::MsgOut(msg), next)),
                None => None,
            }
        } else if tag == 2 {
            match take_login_at(data, at) {
                Some((creds, next)) => Some((MsgType::Login(creds), next)),
                None => None,
            }
        } else if tag == 3 {
            match take_login_at(data, at) {
                Some((creds, next)) => Some((MsgType::Signup(creds), next)),
                None => None,
            }
        } else if tag == 4 {
            match take_res_at(data, at) {
                Some((res, next)) => Some((MsgType::Server(res), next)),
                None => None,
            }
        } else {
            None
        },
        None => None,
    }
}

/// Reads the message that `data` starts with.
///
/// Succeeds exactly on the bodies that stand for a message; bytes behind the
/// message are ignored.
pub fn decode_msg_type(data: &Vec<u8>) -> (r: Result<MsgType, ProtocolError>)
    ensures
        match r {
            Ok(msg) => decoded(data@) == Some(msg@),
            Err(_) => decoded(data@) is None,
        },
{
    assert(data@.skip(0) =~= data@);
    match take_msg_at(data.as_slice(), 0) {
        Some((msg, _)) => Ok(msg),
        None => Err(ProtocolError),
    }
}

/// Reads `data` as a relayed chat message: the message it holds where it
/// stands for one, and nothing where it stands for any other message or for
/// none.
pub fn decode_msg(data: &Vec<u8>) -> (r: Option<ServerMsg>)
    ensures
        match r {
            Some(msg) => decoded(data@) == Some(MsgView::MsgIn(msg@)),
            None => !(decoded(data@) matches Some(MsgView::MsgIn(_))),
        },
{
    match decode_msg_type(data) {
        Ok(MsgType::MsgIn(msg)) => Some(msg),
        _ => None,
    }
}

// ---------------------------------------------------------------------
// Reading back what was written
// ---------------------------------------------------------------------
/// A text whose UTF-8 bytes can be counted in a machine word.
pub open spec fn text_fits(text: Seq<char>) -> bool {
    encode_utf8(text).len() <= usize::MAX
}

/// A payload that can be held in memory.
pub open spec fn data_fits(data: DataView) -> bool {
    match data {
        DataView::Text(text) => text_fits(text),
        DataView::Image(bytes) => bytes.len() <= usize::MAX,
    }
}

/// A response that can be held in memory.
pub open spec fn res_fits(res: ResView) -> bool {
    match res {
        ResView::Error(text) => text_fits(text),
        ResView::UserToken(token) => text_fits(token.token) && text_fits(token.username),
        ResView::UserCreated => true,
    }
}

/// A message that can be held in memory: every text and every byte string
/// in it has a length that fits a machine word. The view of every `MsgType`
/// value is such a message.
pub open spec fn msg_fits(msg: MsgView) -> bool {
    match msg {
        MsgView::MsgIn(msg) => text_fits(msg.username) && data_fits(msg.data),
        MsgView::MsgOut(msg) => text_fits(msg.username) && data_fits(msg.data) && text_fits(
            msg.token,
        ),
        MsgView::Login(creds) => text_fits(creds.username) && text_fits(creds.password),
        MsgView::Signup(creds) => text_fits(creds.username) && text_fits(creds.password),
        MsgView::Server(res) => res_fits(res),
    }
}

proof fn lemma_tag_round_trip(tag: nat, rest: Seq<u8>)
    requires
        tag <= u32::MAX,
    ensures
        take_tag(varint(tag) + rest) == Some((tag, rest)),
{
    lemma_varint_round_trip(tag, u32::MAX as nat, rest);
}

proof fn lemma_blob_round_trip(bytes: Seq<u8>, rest: Seq<u8>)
    requires
        bytes.len() <= usize::MAX,
    ensures
        take_blob(blob_bytes(bytes) + rest) == Some((bytes, rest)),
{
    let tail = bytes + rest;
    assert(blob_bytes(bytes) + rest =~= varint(bytes.len()) + tail);
    lemma_varint_round_trip(bytes.len(), usize::MAX as nat, tail);
    assert(tail.take(bytes.len() as int) =~= bytes);
    assert(tail.skip(bytes.len() as int) =~= rest);
}

proof fn lemma_text_round_trip(text: Seq<char>, rest: Seq<u8>)
    requires
        text_fits(text),
    ensures
        take_text(text_bytes(text) + rest) == Some((text, rest)),
{
    lemma_blob_round_trip(encode_utf8(text), rest);
    encode_utf8_valid_utf8(text);
    encode_utf8_decode_utf8(text);
}

proof fn lemma_data_round_trip(data: DataView, rest: Seq<u8>)
    requires
        data_fits(data),
    ensures
        take_data(data_bytes(data) + rest) == Some((data, rest)),
{
    match data {
        DataView::Text(text) => {
            assert(data_bytes(data) + rest =~= varint(0) + (text_bytes(text) + rest));
            lemma_tag_round_trip(0, text_bytes(text) + rest);
            lemma_text_round_trip(text, rest);
        },
        DataView::Image(bytes) => {
            assert(data_bytes(data) + rest =~= varint(1) + (blob_bytes(bytes) + rest));
            lemma_tag_round_trip(1, blob_bytes(bytes) + rest);
            lemma_blob_round_trip(bytes, rest);
        },
    }
}

proof fn lemma_server_msg_round_trip(msg: ServerMsgView, rest: Seq<u8>)
    requires
        text_fits(msg.username),
        data_fits(msg.data),
    ensures
        take_server_msg(server_msg_bytes(msg) + rest) == Some((msg, rest)),
{
    let tail = data_bytes(msg.data) + rest;
    assert(server_msg_bytes(msg) + rest =~= text_bytes(msg.username) + tail);
    lemma_text_round_trip(msg.username, tail);
    lemma_data_round_trip(msg.data, rest);
}

proof fn lemma_user_msg_round_trip(msg: UserMsgView, rest: Seq<u8>)
    requires
        text_fits(msg.username),
        data_fits(msg.data),
        text_fits(msg.token),
    ensures
        take_user_msg(user_msg_bytes(msg) + rest) == Some((msg, rest)),
{
    let head = ServerMsgView { username: msg.username, data: msg.data };
    let tail = text_bytes(msg.token) + rest;
    assert(user_msg_bytes(msg) + rest =~= server_msg_bytes(head) + tail);
    lemma_server_msg_round_trip(head, tail);
    lemma_text_round_trip(msg.token, rest);
}

proof fn lemma_login_round_trip(creds: LoginMsgView, rest: Seq<u8>)
    requires
        text_fits(creds.username),
        text_fits(creds.password),
    ensures
        take_login(login_bytes(creds) + rest) == Some((creds, rest)),
{
    let tail = text_bytes(creds.password) + rest;
    assert(login_bytes(creds) + rest =~= text_bytes(creds.username) + tail);
    lemma_text_round_trip(creds.username, tail);
    lemma_text_round_trip(creds.password, rest);
}

proof fn lemma_token_msg_round_trip(token: TokenMsgView, rest: Seq<u8>)
    requires
        text_fits(token.token),
        text_fits(token.username),
    ensures
        take_token_msg(token_msg_bytes(token) + rest) == Some((token, rest)),
{
    let tail = text_bytes(token.username) + rest;
    assert(token_msg_bytes(token) + rest =~= text_bytes(token.token) + tail);
    lemma_text_round_trip(token.token, tail);
    lemma_text_round_trip(token.username, rest);
}

proof fn lemma_res_round_trip(res: ResView, rest: Seq<u8>)
    requires
        res_fits(res),
    ensures
        take_res(res_bytes(res) + rest) == Some((res, rest)),
{
    match res {
        ResView::Error(text) => {
            assert(res_bytes(res) + rest =~= varint(0) + (text_bytes(text) + rest));
            lemma_tag_round_trip(0, text_bytes(text) + rest);
            lemma_text_round_trip(text, rest);
        },
        ResView::UserToken(token) => {
            assert(res_bytes(res) + rest =~= varint(1) + (token_msg_bytes(token) + rest));
            lemma_tag_round_trip(1, token_msg_bytes(token) + rest);
            lemma_token_msg_round_trip(token, rest);
        },
        ResView::UserCreated => {
            lemma_tag_round_trip(2, rest);
        },
    }
}

/// Reading a message back from its bytes gives the message, and leaves
/// whatever stood behind it.
pub proof fn lemma_take_msg_round_trip(msg: MsgView, rest: Seq<u8>)
    requires
        msg_fits(msg),
    ensures
        take_msg(msg_bytes(msg) + rest) == Some((msg, rest)),
{
    match msg {
        MsgView::MsgIn(inner) => {
            assert(msg_bytes(msg) + rest =~= varint(0) + (server_msg_bytes(inner) + rest));
            lemma_tag_round_trip(0, server_msg_bytes(inner) + rest);
            lemma_server_msg_round_trip(inner, rest);
        },
        MsgView::MsgOut(inner) => {
            assert(msg_bytes(msg) + rest =~= varint(1) + (user_msg_bytes(inner) + rest));
            lemma_tag_round_trip(1, user_msg_bytes(inner) + rest);
            lemma_user_msg_round_trip(inner, rest);
        },
        MsgView::Login(creds) => {
            assert(msg_bytes(msg) + rest =~= varint(2) + (login_bytes(creds) + rest));
            lemma_tag_round_trip(2, login_bytes(creds) + rest);
            lemma_login_round_trip(creds, rest);
        },
        MsgView::Signup(creds) => {
            assert(msg_bytes(msg) + rest =~= varint(3) + (login_bytes(creds) + rest));
            lemma_tag_round_trip(3, login_bytes(creds) + rest);
            lemma_login_round_trip(creds, rest);
        },
        MsgView::Server(res) => {
            assert(msg_bytes(msg) + rest =~= varint(4) + (res_bytes(res) + rest));
            lemma_tag_round_trip(4, res_bytes(res) + rest);
            lemma_res_round_trip(res, rest);
        },
    }
}

/// Decoding what was encoded gives the message back: for every message
/// `msg`, the body `msg_bytes(msg)` stands for `msg`.
pub proof fn lemma_decode_encode(msg: MsgView)
    requires
        msg_fits(msg),
    ensures
        decoded(msg_bytes(msg)) == Some(msg),
{
    assert(msg_bytes(msg) + Seq::<u8>::empty() =~= msg_bytes(msg));
    lemma_take_msg_round_trip(msg, Seq::<u8>::empty());
}

// ---------------------------------------------------------------------
// What was read can be written
// ---------------------------------------------------------------------
proof fn lemma_take_blob_fits(s: Seq<u8>)
    ensures
        take_blob(s) matches Some((bytes, rest)) ==> bytes.len() + rest.len() < s.len(),
{
    lemma_take_varint_shrinks(s, usize::MAX as nat);
}

proof fn lemma_take_text_fits(s: Seq<u8>)
    ensures
        take_text(s) matches Some((text, rest)) ==> encode_utf8(text).len() + rest.len()
            < s.len(),
{
    lemma_take_blob_fits(s);
    match take_blob(s) {
        Some((bytes, rest)) => {
            if valid_utf8(bytes) {
                decode_utf8_encode_utf8(bytes);
            }
        },
        None => {},
    }
}

proof fn lemma_take_data_fits(s: Seq<u8>)
    requires
        s.len() <= usize::MAX,
    ensures
        take_data(s) matches Some((data, rest)) ==> data_fits(data) && rest.len() < s.len(),
{
    lemma_take_varint_shrinks(s, u32::MAX as nat);
    match take_tag(s) {
        Some((tag, rest)) => {
            lemma_take_text_fits(rest);
            lemma_take_blob_fits(rest);
        },
        None => {},
    }
}

proof fn lemma_take_server_msg_fits(s: Seq<u8>)
    requires
        s.len() <= usize::MAX,
    ensures
        take_server_msg(s) matches Some((msg, rest)) ==> text_fits(msg.username) && data_fits(
            msg.data,
        ) && rest.len() < s.len(),
{
    lemma_take_text_fits(s);
    match take_text(s) {
        Some((username, rest)) => {
            lemma_take_data_fits(rest);
        },
        None => {},
    }
}

proof fn lemma_take_login_fits(s: Seq<u8>)
    requires
        s.len() <= usize::MAX,
    ensures
        take_login(s) matches Some((creds, rest)) ==> text_fits(creds.username) && text_fits(
            creds.password,
        ),
{
    lemma_take_text_fits(s);
    match take_text(s) {
        Some((username, rest)) => {
            lemma_take_text_fits(rest);
        },
        None => {},
    }
}

proof fn lemma_take_res_fits(s: Seq<u8>)
    requires
        s.len() <= usize::MAX,
    ensures
        take_res(s) matches Some((res, rest)) ==> res_fits(res),
{
    lemma_take_varint_shrinks(s, u32::MAX as nat);
    match take_tag(s) {
        Some((tag, rest)) => {
            lemma_take_text_fits(rest);
            match take_text(rest) {
                Some((token, rest)) => {
                    lemma_take_text_fits(rest);
                },
                None => {},
            }
        },
        None => {},
    }
}

/// A message that was read from a body that fits in memory fits in memory
/// itself, so that it can be written again.
pub proof fn lemma_decoded_fits(body: Seq<u8>)
    requires
        body.len() <= usize::MAX,
    ensures
        decoded(body) matches Some(msg) ==> msg_fits(msg),
{
    lemma_take_varint_shrinks(body, u32::MAX as nat);
    match take_tag(body) {
        Some((tag, rest)) => {
            lemma_take_server_msg_fits(rest);
            match take_server_msg(rest) {
                Some((head, rest)) => {
                    lemma_take_text_fits(rest);
                },
                None => {},
            }
            lemma_take_login_fits(rest);
            lemma_take_res_fits(rest);
        },
        None => {},
    }
}

} // verus!
