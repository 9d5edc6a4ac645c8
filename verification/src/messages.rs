//! The messaging platform's data shapes, held as plain values, and the
//! pure conversions the polling loop needs: flattening an update batch
//! to its textual messages and finding the highest update identifier.
//! Serialization lives with the caller; nothing here touches the wire.

use vstd::prelude::*;

verus! {

#[derive(Debug)]
pub struct Chat {
    pub first_name: String,
    pub id: i64,
    pub last_name: String,
    pub typ: String,
    pub username: String,
}

impl Clone for Chat {
    fn clone(&self) -> (r: Self)
        ensures
            r == self,
    {
        Chat {
            first_name: self.first_name.clone(),
            id: self.id,
            last_name: self.last_name.clone(),
            typ: self.typ.clone(),
            username: self.username.clone(),
        }
    }
}

#[derive(Debug)]
pub struct From {
    pub first_name: String,
    pub id: i64,
    pub is_bot: bool,
    pub language_code: String,
    pub last_name: String,
    pub username: String,
}

impl Clone for From {
    fn clone(&self) -> (r: Self)
        ensures
            r == self,
    {
        From {
            first_name: self.first_name.clone(),
            id: self.id,
            is_bot: self.is_bot,
            language_code: self.language_code.clone(),
            last_name: self.last_name.clone(),
            username: self.username.clone(),
        }
    }
}

#[derive(Debug)]
pub struct Message {
    pub message_id: i64,
    pub text: Option<String>,
    pub date: i64,
    pub chat: Chat,
    pub from: From,
}

impl Clone for Message {
    fn clone(&self) -> (r: Self)
        ensures
            r == self,
    {
        Message {
            message_id: self.message_id,
            text: match &self.text {
                Some(t) => Some(t.clone()),
                None => None,
            },
            date: self.date,
            chat: self.chat.clone(),
            from: self.from.clone(),
        }
    }
}

#[derive(Debug)]
pub struct UpdateMessage {
    pub message: Option<Message>,
    pub update_id: i64,
}

#[derive(Debug)]
pub struct GetUpdates {
    pub ok: bool,
    pub result: Vec<UpdateMessage>,
}

#[derive(Debug)]
pub struct SendMessage {
    pub chat_id: i64,
    pub text: String,
    pub disable_notification: bool,
    pub disable_web_page_preview: bool,
}

#[derive(Debug)]
pub struct DeleteMessage {
    pub chat_id: i64,
    pub message_id: i64,
}

#[derive(Debug)]
pub struct EditMessageText {
    pub chat_id: i64,
    pub message_id: i64,
    pub text: String,
    pub disable_web_page_preview: bool,
}

#[derive(Debug)]
pub struct Thumb {
    pub file_id: String,
    pub file_size: i64,
    pub file_unique_id: String,
    pub height: i64,
    pub width: i64,
}

#[derive(Debug)]
pub struct Video {
    pub duration: i64,
    pub file_id: String,
    pub file_name: String,
    pub file_size: i64,
    pub file_unique_id: String,
    pub height: i64,
    pub mime_type: String,
    pub thumb: Option<Thumb>,
    pub width: i64,
}

#[derive(Debug)]
pub struct Audio {
    pub duration: i64,
    pub file_id: String,
    pub file_name: String,
    pub file_size: i64,
    pub file_unique_id: String,
    pub mime_type: String,
}

#[derive(Debug)]
pub struct SendMessageResponseInner {
    pub message_id: i64,
    pub chat: Chat,
    pub from: From,
    pub text: Option<String>,
    pub video: Option<Video>,
    pub audio: Option<Audio>,
}

#[derive(Debug)]
pub struct SendMessageResponse {
    pub ok: bool,
    pub result: SendMessageResponseInner,
}

impl SendMessageResponse {
    pub fn is_ok(&self) -> (r: bool)
        ensures
            r == self.ok,
    {
        self.ok
    }
}

/// Keeps an update only when it carries a message with text.
pub open spec fn textual_message_fn() -> spec_fn(UpdateMessage) -> Option<Message> {
    |u: UpdateMessage|
        match u.message {
            Some(m) => if m.text is Some {
                Some(m)
            } else {
                None
            },
            None => None,
        }
}

/// The greatest update identifier of a batch, if any.
pub open spec fn spec_max_update_id(s: Seq<UpdateMessage>) -> Option<i64>
    decreases s.len(),
{
    if s.len() == 0 {
        None
    } else {
        match spec_max_update_id(s.drop_last()) {
            None => Some(s.last().update_id),
            Some(m) => if s.last().update_id > m {
                Some(s.last().update_id)
            } else {
                Some(m)
            },
        }
    }
}

impl GetUpdates {
    /// The textual messages of the batch, in order.
    pub fn to_messages(&self) -> (r: Vec<Message>)
        ensures
            r@ == self.result@.filter_map(textual_message_fn()),
    {
        let ghost f = textual_message_fn();
        let n: usize = self.result.len();
        let mut out: Vec<Message> = Vec::new();
        proof {
            assert(out@ =~= self.result@.take(0).filter_map(f));
        }
        let mut i: usize = 0;
        while i < n
            invariant
                n == self.result@.len(),
                i <= n,
                f == textual_message_fn(),
                out@ == self.result@.take(i as int).filter_map(f),
            decreases n - i,
        {
            let ghost pre = out@;
            proof {
                self.result@.lemma_filter_map_take_succ(f, i as int);
            }
            match &self.result[i].message {
                Some(m) => {
                    if m.text.is_some() {
                        out.push(m.clone());
                        proof {
                            assert(out@ =~= pre + seq![self.result@[i as int].message->0]);
                        }
                    } else {
                        proof {
                            assert(f(self.result@[i as int]) is None);
                        }
                    }
                },
                None => {
                    proof {
                        assert(f(self.result@[i as int]) is None);
                    }
                },
            }
            i += 1;
        }
        proof {
            assert(self.result@.take(n as int) =~= self.result@);
        }
        out
    }

    /// The highest update identifier seen, to resume polling after it.
    pub fn max_update_id(&self) -> (r: Option<i64>)
        ensures
            r == spec_max_update_id(self.result@),
    {
        let n: usize = self.result.len();
        let mut best: Option<i64> = None;
        proof {
            assert(self.result@.take(0) =~= Seq::<UpdateMessage>::empty());
        }
        let mut i: usize = 0;
        while i < n
            invariant
                n == self.result@.len(),
                i <= n,
                best == spec_max_update_id(self.result@.take(i as int)),
            decreases n - i,
        {
            proof {
                assert(self.result@.take(i as int + 1).drop_last() =~= self.result@.take(i as int));
                assert(self.result@.take(i as int + 1).last() == self.result@[i as int]);
            }
            let id = self.result[i].update_id;
            best = match best {
                None => Some(id),
                Some(m) => if id > m {
                    Some(id)
                } else {
                    Some(m)
                },
            };
            i += 1;
        }
        proof {
            assert(self.result@.take(n as int) =~= self.result@);
        }
        best
    }
}

/// One inbound chat message bound to its session identity.
#[derive(Debug)]
pub struct IncomeMessage {
    pub chat_id: i64,
    pub username: String,
    pub text: String,
}

/// Model of an inbound message.
#[verifier::ext_equal]
pub struct IncomeMessageV {
    pub chat_id: i64,
    pub username: Seq<char>,
    pub text: Seq<char>,
}

impl View for IncomeMessage {
    type V = IncomeMessageV;

    open spec fn view(&self) -> IncomeMessageV {
        IncomeMessageV { chat_id: self.chat_id, username: self.username@, text: self.text@ }
    }
}

impl DeepView for IncomeMessage {
    type V = IncomeMessageV;

    open spec fn deep_view(&self) -> IncomeMessageV {
        self.view()
    }
}

impl Clone for IncomeMessage {
    fn clone(&self) -> (r: Self)
        ensures
            r == self,
    {
        IncomeMessage {
            chat_id: self.chat_id,
            username: self.username.clone(),
            text: self.text.clone(),
        }
    }
}

/// What an inbound message carries: its chat, sender and text. Only
/// messages that carry text become inbound messages.
pub open spec fn income_fn() -> spec_fn(Message) -> Option<IncomeMessageV> {
    |m: Message|
        match m.text {
            Some(t) => Some(
                IncomeMessageV { chat_id: m.chat.id, username: m.chat.username@, text: t@ },
            ),
            None => None,
        }
}

/// Converts a batch of platform messages to inbound messages, dropping
/// the textless ones.
pub fn to_income(msgs: &Vec<Message>) -> (r: Vec<IncomeMessage>)
    ensures
        r.deep_view() == msgs@.filter_map(income_fn()),
{
    let ghost f = income_fn();
    let n: usize = msgs.len();
    let mut out: Vec<IncomeMessage> = Vec::new();
    proof {
        assert(out.deep_view() =~= msgs@.take(0).filter_map(f));
    }
    let mut i: usize = 0;
    while i < n
        invariant
            n == msgs@.len(),
            i <= n,
            f == income_fn(),
            out.deep_view() == msgs@.take(i as int).filter_map(f),
        decreases n - i,
    {
        let ghost pre = out.deep_view();
        proof {
            msgs@.lemma_filter_map_take_succ(f, i as int);
        }
        match &msgs[i].text {
            Some(t) => {
                let im = IncomeMessage {
                    chat_id: msgs[i].chat.id,
                    username: msgs[i].chat.username.clone(),
                    text: t.clone(),
                };
                out.push(im);
                proof {
                    assert(out.deep_view() =~= pre + seq![f(msgs@[i as int])->0]);
                }
            },
            None => {
                proof {
                    assert(f(msgs@[i as int]) is None);
                }
            },
        }
        i += 1;
    }
    proof {
        assert(msgs@.take(n as int) =~= msgs@);
    }
    out
}

} // verus!
