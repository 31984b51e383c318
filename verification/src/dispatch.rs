//! The request dispatch logic: a closed tagged union over the supported
//! inbound messages, a pure dispatch function from message to action, and
//! the session function that processes messages in order until a shutdown
//! request.  The surrounding program performs the transport I/O: it
//! decodes each inbound protocol message into an [`InboundMessage`],
//! calls [`dispatch_message`], and performs the returned [`Action`].

use vstd::prelude::*;

use crate::extract::spec_get_word;
use crate::hover::{hover_content, spec_hover};
use crate::index::NameToInstructionMap;
use crate::instr::{Arch, InstructionV};

verus! {

/// A request identifier: the protocol allows numbers and strings.
pub enum RequestId {
    Number(i64),
    Text(String),
}

/// The model of a [`RequestId`].
#[verifier::ext_equal]
pub enum RequestIdV {
    Number(i64),
    Text(Seq<char>),
}

impl View for RequestId {
    type V = RequestIdV;

    open spec fn view(&self) -> RequestIdV {
        match self {
            RequestId::Number(n) => RequestIdV::Number(*n),
            RequestId::Text(s) => RequestIdV::Text(s@),
        }
    }
}

/// A decoded hover query: the document's text and the zero-based cursor
/// position, the column in UTF-16 code units.
pub struct HoverQuery {
    pub text: String,
    pub line: usize,
    pub character: usize,
}

/// The model of a [`HoverQuery`].
#[verifier::ext_equal]
pub struct HoverQueryV {
    pub text: Seq<char>,
    pub line: int,
    pub character: int,
}

impl View for HoverQuery {
    type V = HoverQueryV;

    open spec fn view(&self) -> HoverQueryV {
        HoverQueryV {
            text: self.text@,
            line: self.line as int,
            character: self.character as int,
        }
    }
}

/// One decoded inbound message.  A hover request whose parameters could
/// not be decoded, or whose document could not be read, carries no
/// query.  Requests of any other method carry only their method name.
pub enum InboundMessage {
    HoverRequest { id: RequestId, query: Option<HoverQuery> },
    ShutdownRequest { id: RequestId },
    OtherRequest { id: RequestId, method: String },
    Notification,
    ResponseMessage,
}

/// The model of an [`InboundMessage`].
#[verifier::ext_equal]
pub enum InboundMessageV {
    HoverRequest { id: RequestIdV, query: Option<HoverQueryV> },
    ShutdownRequest { id: RequestIdV },
    OtherRequest { id: RequestIdV, method: Seq<char> },
    Notification,
    ResponseMessage,
}

impl View for InboundMessage {
    type V = InboundMessageV;

    open spec fn view(&self) -> InboundMessageV {
        match self {
            InboundMessage::HoverRequest { id, query } => InboundMessageV::HoverRequest {
                id: id@,
                query: match query {
                    Option::Some(q) => Option::Some(q@),
                    Option::None => Option::None,
                },
            },
            InboundMessage::ShutdownRequest { id } => InboundMessageV::ShutdownRequest { id: id@ },
            InboundMessage::OtherRequest { id, method } => InboundMessageV::OtherRequest {
                id: id@,
                method: method@,
            },
            InboundMessage::Notification => InboundMessageV::Notification,
            InboundMessage::ResponseMessage => InboundMessageV::ResponseMessage,
        }
    }
}

/// What the loop does with one message.  A hover request always gets
/// exactly one reply; its content is the empty string when the query was
/// undecodable, the token was not found, or the token is unknown.  An
/// unsupported request is logged and — deliberately — not answered.
pub enum Action {
    Reply { id: RequestId, content: String },
    LogUnsupported { method: String },
    Ignore,
    Terminate,
}

/// The model of an [`Action`].
#[verifier::ext_equal]
pub enum ActionV {
    Reply { id: RequestIdV, content: Seq<char> },
    LogUnsupported { method: Seq<char> },
    Ignore,
    Terminate,
}

impl View for Action {
    type V = ActionV;

    open spec fn view(&self) -> ActionV {
        match self {
            Action::Reply { id, content } => ActionV::Reply { id: id@, content: content@ },
            Action::LogUnsupported { method } => ActionV::LogUnsupported { method: method@ },
            Action::Ignore => ActionV::Ignore,
            Action::Terminate => ActionV::Terminate,
        }
    }
}

/// The models of a sequence of messages.
pub open spec fn message_views(v: Seq<InboundMessage>) -> Seq<InboundMessageV> {
    v.map_values(|m: InboundMessage| m@)
}

/// The models of a sequence of actions.
pub open spec fn action_views(v: Seq<Action>) -> Seq<ActionV> {
    v.map_values(|a: Action| a@)
}

/// The hover reply content for a query: the rendered documentation of
/// the extracted token, or the empty string when extraction fails or the
/// token is unknown.
pub open spec fn spec_hover_reply(
    m: Map<(Arch, Seq<char>), InstructionV>,
    q: HoverQueryV,
) -> Seq<char> {
    match spec_get_word(q.text, q.line, q.character) {
        Option::Some(w) => spec_hover(m, w),
        Option::None => Seq::empty(),
    }
}

/// The action for one message.
pub open spec fn spec_dispatch(
    m: Map<(Arch, Seq<char>), InstructionV>,
    msg: InboundMessageV,
) -> ActionV {
    match msg {
        InboundMessageV::ShutdownRequest { id } => ActionV::Terminate,
        InboundMessageV::HoverRequest { id, query } => ActionV::Reply {
            id,
            content: match query {
                Option::Some(q) => spec_hover_reply(m, q),
                Option::None => Seq::empty(),
            },
        },
        InboundMessageV::OtherRequest { id, method } => ActionV::LogUnsupported { method },
        InboundMessageV::Notification => ActionV::Ignore,
        InboundMessageV::ResponseMessage => ActionV::Ignore,
    }
}

/// An exact copy of a request identifier.
fn clone_request_id(id: &RequestId) -> (r: RequestId)
    ensures
        r@ == id@,
{
    match id {
        RequestId::Number(n) => RequestId::Number(*n),
        RequestId::Text(s) => RequestId::Text(crate::filter::clone_string(s)),
    }
}

/// Dispatches one message, as [`spec_dispatch`] describes: a shutdown
/// request terminates, a hover request is answered with exactly one
/// reply, an unsupported request is logged without a reply, and inbound
/// notifications and responses are discarded.
pub fn dispatch_message(map: &NameToInstructionMap, msg: &InboundMessage) -> (a: Action)
    requires
        map.wf(),
    ensures
        a@ == spec_dispatch(map@, msg@),
{
    match msg {
        InboundMessage::ShutdownRequest { id: _ } => Action::Terminate,
        InboundMessage::HoverRequest { id, query } => {
            let content: String = match query {
                Some(q) => {
                    match crate::extract::get_word_from_text(
                        q.text.as_str(),
                        q.line,
                        q.character,
                    ) {
                        Ok(word) => hover_content(map, word.as_str()),
                        Err(_) => String::new(),
                    }
                },
                None => String::new(),
            };
            Action::Reply { id: clone_request_id(id), content }
        },
        InboundMessage::OtherRequest { id: _, method } => Action::LogUnsupported {
            method: crate::filter::clone_string(method),
        },
        InboundMessage::Notification => Action::Ignore,
        InboundMessage::ResponseMessage => Action::Ignore,
    }
}

/// The actions of a session: each message before the first shutdown
/// request is dispatched, in order; the shutdown request itself and
/// everything after it produce nothing, because the loop has returned.
pub open spec fn spec_session(
    m: Map<(Arch, Seq<char>), InstructionV>,
    msgs: Seq<InboundMessageV>,
) -> Seq<ActionV>
    decreases msgs.len(),
{
    if msgs.len() == 0 {
        Seq::empty()
    } else if msgs[0] is ShutdownRequest {
        Seq::empty()
    } else {
        seq![spec_dispatch(m, msgs[0])] + spec_session(m, msgs.drop_first())
    }
}

/// Processes the messages in order until the first shutdown request, as
/// [`spec_session`] describes, and returns once.
pub fn run_session(map: &NameToInstructionMap, msgs: &Vec<InboundMessage>) -> (r: Vec<Action>)
    requires
        map.wf(),
    ensures
        action_views(r@) == spec_session(map@, message_views(msgs@)),
{
    let ghost all = message_views(msgs@);
    let mut out: Vec<Action> = Vec::new();
    let mut i: usize = 0;
    proof {
        assert(all.subrange(0, all.len() as int) =~= all);
        assert(action_views(out@) =~= Seq::<ActionV>::empty());
    }
    while i < msgs.len()
        invariant
            map.wf(),
            all == message_views(msgs@),
            i <= msgs@.len(),
            spec_session(map@, all) == action_views(out@) + spec_session(
                map@,
                all.subrange(i as int, all.len() as int),
            ),
        decreases msgs@.len() - i,
    {
        let ghost suffix = all.subrange(i as int, all.len() as int);
        proof {
            assert(suffix[0] == all[i as int]);
            assert(all[i as int] == msgs@[i as int]@);
            assert(suffix.drop_first() =~= all.subrange(i as int + 1, all.len() as int));
        }
        let msg = &msgs[i];
        let stop = match msg {
            InboundMessage::ShutdownRequest { id: _ } => true,
            _ => false,
        };
        if stop {
            proof {
                assert(spec_session(map@, suffix) =~= Seq::<ActionV>::empty());
                assert(action_views(out@) + Seq::<ActionV>::empty() =~= action_views(out@));
            }
            return out;
        }
        let action = dispatch_message(map, msg);
        out.push(action);
        proof {
            assert(action_views(out@) =~= action_views(out@.drop_last()) + seq![
                out@.last()@,
            ]);
            assert(action_views(out@) + spec_session(
                map@,
                all.subrange(i as int + 1, all.len() as int),
            ) =~= spec_session(map@, all));
        }
        i = i + 1;
    }
    proof {
        assert(all.subrange(i as int, all.len() as int) =~= Seq::<InboundMessageV>::empty());
        assert(action_views(out@) + Seq::<ActionV>::empty() =~= action_views(out@));
    }
    out
}

/// After a shutdown request, nothing more is dispatched: the session's
/// actions are exactly those of the messages before the first shutdown.
pub proof fn lemma_no_dispatch_after_shutdown(
    m: Map<(Arch, Seq<char>), InstructionV>,
    msgs: Seq<InboundMessageV>,
    i: int,
)
    requires
        0 <= i < msgs.len(),
        msgs[i] is ShutdownRequest,
        forall|j: int| 0 <= j < i ==> !((#[trigger] msgs[j]) is ShutdownRequest),
    ensures
        spec_session(m, msgs).len() == i,
        spec_session(m, msgs) == spec_session(m, msgs.subrange(0, i)),
    decreases i,
{
    if i == 0 {
        assert(spec_session(m, msgs.subrange(0, 0)) =~= Seq::<ActionV>::empty());
        assert(spec_session(m, msgs) =~= Seq::<ActionV>::empty());
    } else {
        lemma_no_dispatch_after_shutdown(m, msgs.drop_first(), i - 1);
        assert(msgs.drop_first()[i - 1] == msgs[i]);
        assert(forall|j: int|
            0 <= j < i - 1 ==> !((#[trigger] msgs.drop_first()[j]) is ShutdownRequest));
        let head = seq![spec_dispatch(m, msgs[0])];
        assert(spec_session(m, msgs) == head + spec_session(m, msgs.drop_first()));
        assert(msgs.subrange(0, i).drop_first() =~= msgs.drop_first().subrange(0, i - 1));
        assert(msgs.subrange(0, i)[0] == msgs[0]);
        assert(spec_session(m, msgs.subrange(0, i)) == head + spec_session(
            m,
            msgs.subrange(0, i).drop_first(),
        ));
        assert(spec_session(m, msgs) =~= spec_session(m, msgs.subrange(0, i)));
    }
}

} // verus!
