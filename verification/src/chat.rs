//! A conversation with the agent as a stream of server-sent events.
//!
//! [`Chat`] leads through one request: the actor, the commands that are answered without
//! the agent, the run of the agent, its end. While the agent runs,
//! [`SseSessionListener`] turns what it reports into frames.

use vstd::prelude::*;

use crate::body;
use crate::body::Body;
use crate::body::BodyView;
use crate::event;
use crate::text;

verus! {

/// How many bytes of an error message are shown.
pub const ERROR_BYTES: usize = 120;

/// One server-sent event: its name and its data.
#[derive(Debug)]
pub struct Frame {
    pub event: String,
    pub data: Body,
}

/// What a [`Frame`] says.
#[verifier::ext_equal]
pub struct FrameView {
    pub event: Seq<char>,
    pub data: BodyView,
}

impl Frame {
    pub open spec fn view(&self) -> FrameView {
        FrameView { event: self.event@, data: self.data@ }
    }

    /// A frame.
    pub fn new(event: &str, data: Body) -> (frame: Frame)
        ensures
            frame@ == (FrameView { event: event@, data: data@ }),
    {
        Frame { event: event.to_owned(), data }
    }
}

/// What each of the frames says.
pub open spec fn frames_of(frames: Seq<Frame>) -> Seq<FrameView> {
    frames.map_values(|f: Frame| f@)
}

/// A frame whose data has one member.
pub open spec fn single_frame(event: Seq<char>, name: Seq<char>, value: BodyView) -> FrameView {
    FrameView { event, data: BodyView::Record(seq![(name, value)]) }
}

/// A piece of the answer.
pub open spec fn delta_frame(content: Seq<char>) -> FrameView {
    single_frame("assistant_delta"@, "content"@, BodyView::Text(content))
}

/// The end of the run.
pub open spec fn finished_frame(success: bool) -> FrameView {
    single_frame("run_finished"@, "success"@, BodyView::Flag(success))
}

/// The end of the stream.
pub open spec fn done_frame() -> FrameView {
    FrameView { event: "done"@, data: BodyView::Record(Seq::empty()) }
}

fn delta(content: &str) -> (frame: Frame)
    ensures
        frame@ == delta_frame(content@),
{
    Frame::new("assistant_delta", Body::single("content", Body::text(content)))
}

fn finished(success: bool) -> (frame: Frame)
    ensures
        frame@ == finished_frame(success),
{
    Frame::new("run_finished", Body::single("success", Body::Flag(success)))
}

fn done() -> (frame: Frame)
    ensures
        frame@ == done_frame(),
{
    let members: Vec<(String, Body)> = Vec::new();
    assert(body::members_of(members@) =~= Seq::empty());
    Frame::new("done", Body::record(members))
}

// ---------------------------------------------------------------------------
// What the agent reports
// ---------------------------------------------------------------------------
/// What the agent reports while it runs. At the end of a run, `cleaned` is its whole
/// answer without the markers of messages, and `skip` says whether that answer is not to
/// be shown.
#[derive(Debug)]
pub enum SessionEvent {
    Segment { text: String },
    StreamDelta { content: String },
    ToolStatus { status: String, tool: String, reasoning: Option<String>, message: Option<String> },
    RunError { error: String },
    Done { success: bool, cleaned: String, skip: bool },
    Other,
}

/// What a [`SessionEvent`] says.
#[verifier::ext_equal]
pub enum SessionEventView {
    Segment { text: Seq<char> },
    StreamDelta { content: Seq<char> },
    ToolStatus {
        status: Seq<char>,
        tool: Seq<char>,
        reasoning: Option<Seq<char>>,
        message: Option<Seq<char>>,
    },
    RunError { error: Seq<char> },
    Done { success: bool, cleaned: Seq<char>, skip: bool },
    Other,
}

impl SessionEvent {
    pub open spec fn view(&self) -> SessionEventView {
        match self {
            SessionEvent::Segment { text } => SessionEventView::Segment { text: text@ },
            SessionEvent::StreamDelta { content } => SessionEventView::StreamDelta {
                content: content@,
            },
            SessionEvent::ToolStatus {
                status,
                tool,
                reasoning,
                message,
            } => SessionEventView::ToolStatus {
                status: status@,
                tool: tool@,
                reasoning: event::option_text(*reasoning),
                message: event::option_text(*message),
            },
            SessionEvent::RunError { error } => SessionEventView::RunError { error: error@ },
            SessionEvent::Done { success, cleaned, skip } => SessionEventView::Done {
                success: *success,
                cleaned: cleaned@,
                skip: *skip,
            },
            SessionEvent::Other => SessionEventView::Other,
        }
    }
}

impl SessionEventView {
    /// Whether the agent reports a piece of its answer.
    pub open spec fn is_piece(self) -> bool {
        self is Segment || self is StreamDelta
    }

    /// The frames to send, where `sent` pieces of the answer have been sent before.
    pub open spec fn frames(self, sent: nat) -> Seq<FrameView> {
        match self {
            SessionEventView::Segment { text } => seq![delta_frame(text)],
            SessionEventView::StreamDelta { content } => seq![delta_frame(content)],
            SessionEventView::ToolStatus { status, tool, reasoning, message } => seq![
                FrameView {
                    event: "tool_call"@,
                    data: BodyView::Record(
                        seq![
                            ("tool"@, BodyView::Text(tool)),
                            ("status"@, BodyView::Text(status)),
                            ("text"@, body::text_or_null(message)),
                            ("reasoning"@, body::text_or_null(reasoning)),
                        ],
                    ),
                },
            ],
            SessionEventView::RunError { error } => seq![
                single_frame(
                    "run_error"@,
                    "message"@,
                    BodyView::Text(
                        "抱歉，处理出错: "@ + text::clipped(error, ERROR_BYTES as nat),
                    ),
                ),
            ],
            SessionEventView::Done { success, cleaned, skip } => if sent == 0 && cleaned.len() > 0
                && !skip {
                seq![delta_frame(cleaned), finished_frame(success)]
            } else {
                seq![finished_frame(success)]
            },
            SessionEventView::Other => Seq::empty(),
        }
    }
}

/// Turns what the agent reports to the user into frames.
#[derive(Debug)]
pub struct SseSessionListener {
    pub user_id: String,
    pub sent_segments: usize,
}

impl SseSessionListener {
    /// A listener for a run that has reported nothing yet.
    pub fn new(user_id: String) -> (listener: Self)
        ensures
            listener.user_id == user_id,
            listener.sent_segments == 0,
    {
        SseSessionListener { user_id, sent_segments: 0 }
    }

    /// The frames to send for what the agent reports.
    ///
    /// The whole answer is sent at the end of the run only if no piece of it was sent
    /// before: a client that missed the first pieces still gets the answer, and none gets
    /// it twice.
    pub fn on_event(&mut self, event: &SessionEvent) -> (frames: Vec<Frame>)
        requires
            old(self).sent_segments < usize::MAX,
        ensures
            frames_of(frames@) == event@.frames(old(self).sent_segments as nat),
            final(self).user_id == old(self).user_id,
            final(self).sent_segments == old(self).sent_segments + if event@.is_piece() {
                1int
            } else {
                0
            },
    {
        let mut frames: Vec<Frame> = Vec::new();
        let ghost sent = self.sent_segments as nat;
        match event {
            SessionEvent::Segment { text } => {
                frames.push(delta(text.as_str()));
                self.sent_segments = self.sent_segments + 1;
            },
            SessionEvent::StreamDelta { content } => {
                frames.push(delta(content.as_str()));
                self.sent_segments = self.sent_segments + 1;
            },
            SessionEvent::ToolStatus { status, tool, reasoning, message } => {
                let members: Vec<(String, Body)> = vec![
                    ("tool".to_owned(), Body::text(tool.as_str())),
                    ("status".to_owned(), Body::text(status.as_str())),
                    ("text".to_owned(), Body::optional_text(message)),
                    ("reasoning".to_owned(), Body::optional_text(reasoning)),
                ];
                assert(body::members_of(members@) =~= event@.frames(sent)[0].data->Record_0);
                frames.push(Frame::new("tool_call", Body::record(members)));
            },
            SessionEvent::RunError { error } => {
                let snippet = text::clip(error.as_str(), ERROR_BYTES);
                let shown = text::concat2("抱歉，处理出错: ", snippet);
                frames.push(
                    Frame::new("run_error", Body::single("message", Body::text(shown.as_str()))),
                );
            },
            SessionEvent::Done { success, cleaned, skip } => {
                if self.sent_segments == 0 && !cleaned.as_str().is_empty() && !*skip {
                    frames.push(delta(cleaned.as_str()));
                }
                frames.push(finished(*success));
            },
            SessionEvent::Other => {},
        }
        assert(frames_of(frames@) =~= event@.frames(sent));
        frames
    }
}

// ---------------------------------------------------------------------------
// One request
// ---------------------------------------------------------------------------
/// How far a request has come.
#[derive(Clone, Copy, Debug, PartialEq, Eq, Structural)]
pub enum ChatStage {
    /// The actor is to be made out.
    Starting,
    /// The message is to be tried as a command.
    Intercepting,
    /// The agent is to run.
    Running,
    /// Nothing more is sent.
    Over,
}

/// What happened to a request.
#[derive(Debug)]
pub enum ChatInput {
    /// The actor could not be made out, for the reason given.
    ActorRefused { reason: String },
    /// The actor is known.
    ActorAccepted,
    /// The message was a command, and this is the answer.
    CommandAnswered { reply: String },
    /// The message was no command; the runner is to answer it.
    NoCommand { runner: String },
    /// The run has come to its end.
    RunEnded { success: bool },
}

/// What a [`ChatInput`] says.
#[verifier::ext_equal]
pub enum ChatInputView {
    ActorRefused { reason: Seq<char> },
    ActorAccepted,
    CommandAnswered { reply: Seq<char> },
    NoCommand { runner: Seq<char> },
    RunEnded { success: bool },
}

impl ChatInput {
    pub open spec fn view(&self) -> ChatInputView {
        match self {
            ChatInput::ActorRefused { reason } => ChatInputView::ActorRefused { reason: reason@ },
            ChatInput::ActorAccepted => ChatInputView::ActorAccepted,
            ChatInput::CommandAnswered { reply } => ChatInputView::CommandAnswered {
                reply: reply@,
            },
            ChatInput::NoCommand { runner } => ChatInputView::NoCommand { runner: runner@ },
            ChatInput::RunEnded { success } => ChatInputView::RunEnded { success: *success },
        }
    }
}

impl ChatInputView {
    /// Whether this can happen to a request at the stage.
    pub open spec fn possible_at(self, stage: ChatStage) -> bool {
        match stage {
            ChatStage::Starting => self is ActorRefused || self is ActorAccepted,
            ChatStage::Intercepting => self is CommandAnswered || self is NoCommand,
            ChatStage::Running => self is RunEnded,
            ChatStage::Over => false,
        }
    }

    /// The stage that the request comes to.
    pub open spec fn next_stage(self) -> ChatStage {
        match self {
            ChatInputView::ActorAccepted => ChatStage::Intercepting,
            ChatInputView::NoCommand { .. } => ChatStage::Running,
            _ => ChatStage::Over,
        }
    }

    /// The frames to send.
    pub open spec fn frames(self) -> Seq<FrameView> {
        match self {
            ChatInputView::ActorRefused { reason } => seq![
                single_frame("error"@, "text"@, BodyView::Text(reason)),
                done_frame(),
            ],
            ChatInputView::ActorAccepted => Seq::empty(),
            ChatInputView::CommandAnswered { reply } => seq![delta_frame(reply), done_frame()],
            ChatInputView::NoCommand { runner } => seq![
                FrameView {
                    event: "run_started"@,
                    data: BodyView::Record(
                        seq![
                            ("runner"@, BodyView::Text(runner)),
                            ("text"@, BodyView::Text(Seq::empty())),
                        ],
                    ),
                },
            ],
            ChatInputView::RunEnded { success } => if success {
                seq![done_frame()]
            } else {
                seq![finished_frame(false), done_frame()]
            },
        }
    }
}

/// A request on its way.
#[derive(Debug)]
pub struct Chat {
    pub stage: ChatStage,
}

impl Chat {
    /// A request that has just come in.
    pub fn new() -> (chat: Chat)
        ensures
            chat.stage == ChatStage::Starting,
    {
        Chat { stage: ChatStage::Starting }
    }

    /// Takes what happened and gives the frames to send.
    pub fn step(&mut self, input: &ChatInput) -> (frames: Vec<Frame>)
        requires
            input@.possible_at(old(self).stage),
        ensures
            final(self).stage == input@.next_stage(),
            frames_of(frames@) == input@.frames(),
    {
        let mut frames: Vec<Frame> = Vec::new();
        match input {
            ChatInput::ActorRefused { reason } => {
                frames.push(
                    Frame::new("error", Body::single("text", Body::text(reason.as_str()))),
                );
                frames.push(done());
                self.stage = ChatStage::Over;
            },
            ChatInput::ActorAccepted => {
                self.stage = ChatStage::Intercepting;
            },
            ChatInput::CommandAnswered { reply } => {
                frames.push(delta(reply.as_str()));
                frames.push(done());
                self.stage = ChatStage::Over;
            },
            ChatInput::NoCommand { runner } => {
                let members: Vec<(String, Body)> = vec![
                    ("runner".to_owned(), Body::text(runner.as_str())),
                    ("text".to_owned(), Body::Text(String::new())),
                ];
                assert(body::members_of(members@) =~= input@.frames()[0].data->Record_0);
                frames.push(Frame::new("run_started", Body::record(members)));
                self.stage = ChatStage::Running;
            },
            ChatInput::RunEnded { success } => {
                if !*success {
                    frames.push(finished(false));
                }
                frames.push(done());
                self.stage = ChatStage::Over;
            },
        }
        assert(frames_of(frames@) =~= input@.frames());
        frames
    }
}

/// Who an actor is to be made of: the channel, the id of the user, and the scope within the
/// channel if there is one.
#[derive(Debug)]
pub struct ActorRequest {
    pub channel: String,
    pub user_id: String,
    pub scope: Option<String>,
}

/// Who sends the message of a request: the channel and the user that the request names,
/// without white space at their ends, in the scope that it names.
pub fn requested_actor(channel: &str, user_id: &str, scope: Option<String>) -> (request:
    ActorRequest)
    ensures
        request.channel@ == text::trimmed(channel@),
        request.user_id@ == text::trimmed(user_id@),
        request.scope == scope,
{
    ActorRequest {
        channel: text::trim(channel).to_owned(),
        user_id: text::trim(user_id).to_owned(),
        scope,
    }
}

/// What is noted of the attachments of a message.
pub fn receipt_note(attachments: usize) -> (note: String)
    ensures
        note@ == "attachments="@ + text::numeral(attachments as nat),
{
    text::concat2("attachments=", text::decimal(attachments as u64).as_str())
}

/// The line that stands for an attachment.
pub open spec fn attachment_line(name: Seq<char>) -> Seq<char> {
    "[附件: "@ + name + "]"@
}

/// The lines that stand for the attachments.
pub open spec fn attachment_lines(names: Seq<Seq<char>>) -> Seq<char>
    decreases names.len(),
{
    if names.len() == 0 {
        Seq::empty()
    } else if names.len() == 1 {
        attachment_line(names[0])
    } else {
        attachment_lines(names.drop_last()) + "\n"@ + attachment_line(names.last())
    }
}

/// The message as the agent gets it: without white space at its ends, and with a line
/// for each attachment below it.
pub open spec fn composed(message: Seq<char>, attachments: Seq<Seq<char>>) -> Seq<char> {
    let message = text::trimmed(message);
    if attachments.len() == 0 {
        message
    } else if message.len() == 0 {
        attachment_lines(attachments)
    } else {
        message + "\n"@ + attachment_lines(attachments)
    }
}

/// What the message of a request says, where none says nothing.
pub open spec fn message_of(message: Option<String>) -> Seq<char> {
    match message {
        Some(s) => s@,
        None => Seq::empty(),
    }
}

/// What the attachments of a request are, where none are no attachments.
pub open spec fn attachments_of(attachments: Option<Vec<String>>) -> Seq<Seq<char>> {
    match attachments {
        Some(names) => event::texts_of(names@),
        None => Seq::empty(),
    }
}

/// The message of a request as the agent gets it, and how many attachments it has.
pub fn compose_message(message: &Option<String>, attachments: &Option<Vec<String>>) -> (composed:
    (String, usize))
    ensures
        composed.0@ == self::composed(message_of(*message), attachments_of(*attachments)),
        composed.1 == attachments_of(*attachments).len(),
{
    let given = match message {
        Some(s) => text::trim(s.as_str()).to_owned(),
        None => {
            assert(text::trimmed(Seq::empty()) =~= Seq::empty());
            String::new()
        },
    };
    let names = match attachments {
        Some(names) => names,
        None => {
            return (given, 0);
        },
    };
    let ghost views = event::texts_of(names@);
    if names.len() == 0 {
        return (given, 0);
    }
    let mut lines = text::concat3("[附件: ", names[0].as_str(), "]");
    let mut i: usize = 1;
    while i < names.len()
        invariant
            1 <= i <= names@.len(),
            views == event::texts_of(names@),
            lines@ == attachment_lines(views.take(i as int)),
        decreases names@.len() - i,
    {
        assert(views.take(i + 1).drop_last() =~= views.take(i as int));
        assert(views.take(i + 1).last() == names@[i as int]@);
        let line = text::concat3("[附件: ", names[i].as_str(), "]");
        lines = text::concat3(lines.as_str(), "\n", line.as_str());
        i = i + 1;
    }
    assert(views.take(names@.len() as int) =~= views);
    if given.as_str().is_empty() {
        (lines, names.len())
    } else {
        (text::concat3(given.as_str(), "\n", lines.as_str()), names.len())
    }
}

// ---------------------------------------------------------------------------
// What holds of every stream
// ---------------------------------------------------------------------------
/// How many pieces of the answer the reports hold.
pub open spec fn pieces(reports: Seq<SessionEventView>) -> nat
    decreases reports.len(),
{
    if reports.len() == 0 {
        0
    } else {
        pieces(reports.drop_last()) + if reports.last().is_piece() {
            1nat
        } else {
            0
        }
    }
}

/// The frames of a listener to the reports.
pub open spec fn listener_frames(reports: Seq<SessionEventView>) -> Seq<FrameView>
    decreases reports.len(),
{
    if reports.len() == 0 {
        Seq::empty()
    } else {
        listener_frames(reports.drop_last()) + reports.last().frames(pieces(reports.drop_last()))
    }
}

/// All frames of a request that the agent answers.
pub open spec fn run_stream(
    runner: Seq<char>,
    reports: Seq<SessionEventView>,
    success: bool,
) -> Seq<FrameView> {
    ChatInputView::ActorAccepted.frames() + ChatInputView::NoCommand { runner }.frames()
        + listener_frames(reports) + ChatInputView::RunEnded { success }.frames()
}

/// Whether the stream ends with the frame that ends streams, and has it nowhere else.
pub open spec fn ends_once(frames: Seq<FrameView>) -> bool {
    &&& frames.len() > 0
    &&& frames.last() == done_frame()
    &&& forall|i: int| 0 <= i < frames.len() - 1 ==> (#[trigger] frames[i]).event != "done"@
}

proof fn lemma_event_names()
    ensures
        "error"@ != "done"@,
        "assistant_delta"@ != "done"@,
        "run_started"@ != "done"@,
        "run_finished"@ != "done"@,
        "run_error"@ != "done"@,
        "tool_call"@ != "done"@,
        "run_started"@ != "assistant_delta"@,
        "run_finished"@ != "assistant_delta"@,
        "run_error"@ != "assistant_delta"@,
        "tool_call"@ != "assistant_delta"@,
{
    reveal_strlit("error");
    reveal_strlit("done");
    reveal_strlit("assistant_delta");
    reveal_strlit("run_started");
    reveal_strlit("run_finished");
    reveal_strlit("run_error");
    reveal_strlit("tool_call");
    assert("error"@.len() == 5);
    assert("done"@.len() == 4);
    assert("assistant_delta"@.len() == 15);
    assert("run_started"@.len() == 11);
    assert("run_finished"@.len() == 12);
    assert("run_error"@.len() == 9);
    assert("tool_call"@.len() == 9);
}

proof fn lemma_listener_never_ends_the_stream(reports: Seq<SessionEventView>)
    ensures
        forall|i: int|
            0 <= i < listener_frames(reports).len() ==> (#[trigger] listener_frames(reports)[i]).event
                != "done"@,
    decreases reports.len(),
{
    lemma_event_names();
    if reports.len() > 0 {
        lemma_listener_never_ends_the_stream(reports.drop_last());
    }
}

/// Every stream ends with the frame that ends streams and has it nowhere else, whether
/// the actor is refused, a command is answered or the agent runs, and whatever the agent
/// reports.
pub proof fn law_every_stream_ends_once(
    reason: Seq<char>,
    reply: Seq<char>,
    runner: Seq<char>,
    reports: Seq<SessionEventView>,
    success: bool,
)
    ensures
        ends_once(ChatInputView::ActorRefused { reason }.frames()),
        ends_once(
            ChatInputView::ActorAccepted.frames()
                + ChatInputView::CommandAnswered { reply }.frames(),
        ),
        ends_once(run_stream(runner, reports, success)),
{
    lemma_event_names();
    lemma_listener_never_ends_the_stream(reports);
    let run = run_stream(runner, reports, success);
    let start = ChatInputView::NoCommand { runner }.frames();
    let middle = listener_frames(reports);
    let end = ChatInputView::RunEnded { success }.frames();
    assert(run.last() == end.last());
    assert forall|i: int| 0 <= i < run.len() - 1 implies (#[trigger] run[i]).event != "done"@ by {
        if i < 1 {
            assert(run[i] == start[i]);
        } else if i < 1 + middle.len() {
            assert(run[i] == middle[i - 1]);
        } else {
            assert(run[i] == end[i - 1 - middle.len()]);
        }
    }
}

/// The end of a run repeats nothing: once a piece of the answer was sent, the report of
/// the end adds no more of it.
pub proof fn law_answer_is_not_repeated(
    reports: Seq<SessionEventView>,
    success: bool,
    cleaned: Seq<char>,
    skip: bool,
)
    requires
        pieces(reports) > 0,
    ensures
        listener_frames(reports.push(SessionEventView::Done { success, cleaned, skip }))
            == listener_frames(reports).push(finished_frame(success)),
{
    let end = SessionEventView::Done { success, cleaned, skip };
    assert(reports.push(end).drop_last() =~= reports);
    assert(listener_frames(reports) + seq![finished_frame(success)] =~= listener_frames(
        reports,
    ).push(finished_frame(success)));
}

/// The answer is not lost: if no piece of it was sent, the report of the end sends it
/// whole, unless it is empty or not to be shown.
pub proof fn law_answer_is_not_lost(
    reports: Seq<SessionEventView>,
    success: bool,
    cleaned: Seq<char>,
)
    requires
        pieces(reports) == 0,
        cleaned.len() > 0,
    ensures
        listener_frames(reports.push(SessionEventView::Done { success, cleaned, skip: false }))
            == listener_frames(reports).push(delta_frame(cleaned)).push(finished_frame(success)),
{
    let end = SessionEventView::Done { success, cleaned, skip: false };
    assert(reports.push(end).drop_last() =~= reports);
    assert(listener_frames(reports) + seq![delta_frame(cleaned), finished_frame(success)]
        =~= listener_frames(reports).push(delta_frame(cleaned)).push(finished_frame(success)));
}

/// What a client is shown of an error fits into the limit and is a start of the message.
pub proof fn law_error_is_clipped(message: Seq<char>)
    ensures
        ({
            let shown = text::clipped(message, ERROR_BYTES as nat);
            &&& text::byte_count(shown) <= ERROR_BYTES
            &&& shown.is_prefix_of(message)
            &&& text::byte_count(message) <= ERROR_BYTES ==> shown == message
        }),
{
    text::law_clipped_fits(message, ERROR_BYTES as nat);
}

/// What a client shows of a frame: the content of a piece of the answer, and nothing of any
/// other frame.
pub open spec fn content_of(frame: FrameView) -> Seq<char> {
    if frame.event == "assistant_delta"@ {
        match frame.data {
            BodyView::Record(members) => if members.len() == 1 && members[0].0 == "content"@ {
                match members[0].1 {
                    BodyView::Text(content) => content,
                    _ => Seq::empty(),
                }
            } else {
                Seq::empty()
            },
            _ => Seq::empty(),
        }
    } else {
        Seq::empty()
    }
}

/// What a client shows of the frames, one behind the other.
pub open spec fn shown(frames: Seq<FrameView>) -> Seq<char>
    decreases frames.len(),
{
    if frames.len() == 0 {
        Seq::empty()
    } else {
        shown(frames.drop_last()) + content_of(frames.last())
    }
}

/// What the agent told in the pieces of its answer, one behind the other.
pub open spec fn told(reports: Seq<SessionEventView>) -> Seq<char>
    decreases reports.len(),
{
    if reports.len() == 0 {
        Seq::empty()
    } else {
        told(reports.drop_last()) + match reports.last() {
            SessionEventView::Segment { text } => text,
            SessionEventView::StreamDelta { content } => content,
            _ => Seq::empty(),
        }
    }
}

proof fn lemma_shown_of_parts(first: Seq<FrameView>, second: Seq<FrameView>)
    ensures
        shown(first + second) == shown(first) + shown(second),
    decreases second.len(),
{
    if second.len() == 0 {
        assert(first + second =~= first);
        assert(shown(first) + shown(second) =~= shown(first));
    } else {
        lemma_shown_of_parts(first, second.drop_last());
        assert((first + second).drop_last() =~= first + second.drop_last());
        assert(shown(first + second) =~= shown(first) + shown(second));
    }
}

proof fn lemma_pieces_are_counted(reports: Seq<SessionEventView>, i: int)
    requires
        0 <= i < reports.len(),
        reports[i] is Segment || reports[i] is StreamDelta,
    ensures
        pieces(reports) > 0,
    decreases reports.len(),
{
    if i < reports.len() - 1 {
        lemma_pieces_are_counted(reports.drop_last(), i);
    }
}

proof fn lemma_shown_of_report(report: SessionEventView, sent: nat)
    requires
        report is Done ==> sent > 0,
    ensures
        shown(report.frames(sent)) == match report {
            SessionEventView::Segment { text } => text,
            SessionEventView::StreamDelta { content } => content,
            _ => Seq::empty(),
        },
{
    lemma_event_names();
    reveal_with_fuel(shown, 2);
    let frames = report.frames(sent);
    if frames.len() > 0 {
        assert(frames.len() == 1);
        assert(frames.drop_last() =~= Seq::empty());
        assert(shown(frames) =~= content_of(frames[0]));
    }
}

/// The answer is passed on as it comes: whatever the agent reports, what the client shows of
/// the frames is what the agent told in the pieces of its answer, character for character and
/// in their order. The report of the end adds nothing to it once a piece was sent.
pub proof fn law_pieces_are_passed_on_unchanged(reports: Seq<SessionEventView>)
    requires
        forall|i: int|
            0 <= i < reports.len() && #[trigger] reports[i] is Done ==> exists|j: int|
                0 <= j < i && (#[trigger] reports[j] is Segment || reports[j] is StreamDelta),
    ensures
        shown(listener_frames(reports)) == told(reports),
    decreases reports.len(),
{
    if reports.len() > 0 {
        let before = reports.drop_last();
        let last = reports.last();
        assert forall|i: int| 0 <= i < before.len() && #[trigger] before[i] is Done implies exists|
            j: int,
        |
            0 <= j < i && (#[trigger] before[j] is Segment || before[j] is StreamDelta) by {
            assert(reports[i] is Done);
            let j = choose|j: int|
                0 <= j < i && (#[trigger] reports[j] is Segment || reports[j] is StreamDelta);
            assert(before[j] == reports[j]);
        }
        law_pieces_are_passed_on_unchanged(before);
        if last is Done {
            assert(reports[reports.len() - 1] is Done);
            let j = choose|j: int|
                0 <= j < reports.len() - 1 && (#[trigger] reports[j] is Segment
                    || reports[j] is StreamDelta);
            assert(before[j] == reports[j]);
            lemma_pieces_are_counted(before, j);
        }
        lemma_shown_of_report(last, pieces(before));
        lemma_shown_of_parts(listener_frames(before), last.frames(pieces(before)));
    }
}

/// A piece of the answer is one frame with its text as it is, and counts as sent; nothing
/// else counts.
pub proof fn law_piece_is_one_frame(text: Seq<char>, report: SessionEventView, sent: nat)
    ensures
        (SessionEventView::Segment { text }).frames(sent) == seq![
            FrameView {
                event: "assistant_delta"@,
                data: BodyView::Record(seq![("content"@, BodyView::Text(text))]),
            },
        ],
        (SessionEventView::StreamDelta { content: text }).frames(sent) == (
        SessionEventView::Segment { text }).frames(sent),
        report.is_piece() <==> report is Segment || report is StreamDelta,
        report is Other ==> report.frames(sent).len() == 0,
{
}

/// A tool is reported in one frame that holds its name, its status, its message as the text,
/// and the reasoning, each as the agent reported it; what the agent left out is null.
pub proof fn law_tool_is_reported_as_it_is(
    status: Seq<char>,
    tool: Seq<char>,
    reasoning: Option<Seq<char>>,
    message: Option<Seq<char>>,
    sent: nat,
)
    ensures
        ({
            let frames = SessionEventView::ToolStatus { status, tool, reasoning, message }.frames(
                sent,
            );
            &&& frames.len() == 1
            &&& frames[0].event == "tool_call"@
            &&& frames[0].data matches BodyView::Record(members) && members.len() == 4
                && members[0] == ("tool"@, BodyView::Text(tool)) && members[1] == (
                "status"@,
                BodyView::Text(status),
            ) && members[2].0 == "text"@ && members[3].0 == "reasoning"@ && (match message {
                Some(s) => members[2].1 == BodyView::Text(s),
                None => members[2].1 is Null,
            }) && (match reasoning {
                Some(s) => members[3].1 == BodyView::Text(s),
                None => members[3].1 is Null,
            })
        }),
{
}

/// An error is shown in one frame, with as much of its start behind the apology as fits into
/// 120 bytes of UTF-8, and no more.
pub proof fn law_error_is_shown_from_its_start(error: Seq<char>, sent: nat)
    ensures
        ({
            let frames = SessionEventView::RunError { error }.frames(sent);
            &&& frames.len() == 1
            &&& frames[0].event == "run_error"@
            &&& exists|n: int|
                0 <= n <= error.len() && vstd::utf8::encode_utf8(#[trigger] error.take(n)).len()
                    <= 120 && (forall|k: int|
                    n < k <= error.len() ==> vstd::utf8::encode_utf8(
                        #[trigger] error.take(k),
                    ).len() > 120) && frames[0].data == BodyView::Record(
                    seq![("message"@, BodyView::Text("抱歉，处理出错: "@ + error.take(n)))],
                )
        }),
{
    text::law_clipped_fits(error, ERROR_BYTES as nat);
    let start = text::clipped(error, ERROR_BYTES as nat);
    let n = start.len() as int;
    assert(error.take(n) =~= start);
    assert forall|k: int| n < k <= error.len() implies vstd::utf8::encode_utf8(
        #[trigger] error.take(k),
    ).len() > 120 by {
        assert(text::byte_count(error.take(k)) > ERROR_BYTES);
    }
}

/// The end of a run is told with its success, last. The whole answer goes before it if and
/// only if no piece was sent, the answer is not empty and it is to be shown.
pub proof fn law_end_of_a_run(success: bool, cleaned: Seq<char>, skip: bool, sent: nat)
    ensures
        ({
            let frames = SessionEventView::Done { success, cleaned, skip }.frames(sent);
            &&& frames.len() == if sent == 0 && cleaned.len() > 0 && !skip {
                2int
            } else {
                1
            }
            &&& frames.last().event == "run_finished"@
            &&& frames.last().data == BodyView::Record(
                seq![("success"@, BodyView::Flag(success))],
            )
            &&& frames.len() == 2 ==> frames[0].event == "assistant_delta"@ && frames[0].data
                == BodyView::Record(seq![("content"@, BodyView::Text(cleaned))])
        }),
{
}

/// Once the agent reported a piece of its answer, of whichever sort, the report of the end
/// adds one frame, and that shows nothing of the answer.
pub proof fn law_streamed_answer_is_not_repeated(
    reports: Seq<SessionEventView>,
    i: int,
    success: bool,
    cleaned: Seq<char>,
    skip: bool,
)
    requires
        0 <= i < reports.len(),
        reports[i] is Segment || reports[i] is StreamDelta,
    ensures
        ({
            let before = listener_frames(reports);
            let after = listener_frames(
                reports.push(SessionEventView::Done { success, cleaned, skip }),
            );
            &&& after.len() == before.len() + 1
            &&& before.is_prefix_of(after)
            &&& after.last().event == "run_finished"@
            &&& shown(after) == shown(before)
        }),
{
    lemma_pieces_are_counted(reports, i);
    law_answer_is_not_repeated(reports, success, cleaned, skip);
    lemma_event_names();
    let before = listener_frames(reports);
    let after = before.push(finished_frame(success));
    assert(after.drop_last() =~= before);
    assert(shown(after) =~= shown(before));
}

/// A request that is refused is told why, a command is answered by its reply, a run is
/// announced with its runner, and the end of a run that failed is told as such; each in its
/// own words, and the end of the stream last where the stream ends.
pub proof fn law_requests_are_answered(
    reason: Seq<char>,
    reply: Seq<char>,
    runner: Seq<char>,
)
    ensures
        ({
            let end = FrameView { event: "done"@, data: BodyView::Record(Seq::empty()) };
            let failed = FrameView {
                event: "run_finished"@,
                data: BodyView::Record(seq![("success"@, BodyView::Flag(false))]),
            };
            &&& (ChatInputView::ActorRefused { reason }).frames() == seq![
                FrameView {
                    event: "error"@,
                    data: BodyView::Record(seq![("text"@, BodyView::Text(reason))]),
                },
                end,
            ]
            &&& ChatInputView::ActorAccepted.frames().len() == 0
            &&& (ChatInputView::CommandAnswered { reply }).frames() == seq![
                FrameView {
                    event: "assistant_delta"@,
                    data: BodyView::Record(seq![("content"@, BodyView::Text(reply))]),
                },
                end,
            ]
            &&& (ChatInputView::NoCommand { runner }).frames() == seq![
                FrameView {
                    event: "run_started"@,
                    data: BodyView::Record(
                        seq![
                            ("runner"@, BodyView::Text(runner)),
                            ("text"@, BodyView::Text(Seq::empty())),
                        ],
                    ),
                },
            ]
            &&& (ChatInputView::RunEnded { success: true }).frames() == seq![end]
            &&& (ChatInputView::RunEnded { success: false }).frames() == seq![failed, end]
        }),
{
}

/// A request goes through its stages in order: the actor, then the command, then the run. It
/// is over as soon as the stream has its last frame, and goes on as long as it has not.
pub proof fn law_requests_go_through_their_stages(input: ChatInputView, stage: ChatStage)
    ensures
        input.next_stage() is Over <==> input.frames().len() > 0 && input.frames().last().event
            == "done"@,
        input is ActorAccepted ==> input.next_stage() is Intercepting,
        input is NoCommand ==> input.next_stage() is Running,
        input.possible_at(stage) ==> (stage is Starting <==> input is ActorRefused
            || input is ActorAccepted) && (stage is Intercepting <==> input is CommandAnswered
            || input is NoCommand) && (stage is Running <==> input is RunEnded),
        input.possible_at(ChatStage::Starting) <==> input is ActorRefused || input is ActorAccepted,
        input.possible_at(ChatStage::Intercepting) <==> input is CommandAnswered
            || input is NoCommand,
        input.possible_at(ChatStage::Running) <==> input is RunEnded,
        !input.possible_at(ChatStage::Over),
{
    lemma_event_names();
}

/// A message without attachments is the message trimmed. Each further attachment adds one
/// line with its name below what there is, and the first is alone if the message is blank.
pub proof fn law_each_attachment_adds_its_line(
    message: Seq<char>,
    attachments: Seq<Seq<char>>,
    name: Seq<char>,
)
    ensures
        composed(message, Seq::empty()) == text::trimmed(message),
        composed(message, attachments.push(name)) == if composed(message, attachments).len() == 0
            && attachments.len() == 0 {
            "[附件: "@ + name + "]"@
        } else {
            composed(message, attachments) + "\n"@ + ("[附件: "@ + name + "]"@)
        },
{
    let all = attachments.push(name);
    assert(all.drop_last() =~= attachments);
    if attachments.len() > 0 {
        assert(attachment_lines(all) == attachment_lines(attachments) + "\n"@ + attachment_line(
            name,
        ));
    }
    assert(composed(message, all) =~= if composed(message, attachments).len() == 0
        && attachments.len() == 0 {
        "[附件: "@ + name + "]"@
    } else {
        composed(message, attachments) + "\n"@ + ("[附件: "@ + name + "]"@)
    });
}

/// Frames, reports and requests say what they hold.
pub proof fn law_frames_say_what_they_hold(
    frame: Frame,
    frames: Seq<Frame>,
    text: String,
    names: Vec<String>,
)
    ensures
        frame@.event == frame.event@,
        frame@.data == frame.data@,
        frames_of(frames).len() == frames.len(),
        forall|i: int| 0 <= i < frames.len() ==> #[trigger] frames_of(frames)[i] == frames[i]@,
        (SessionEvent::Segment { text })@ == (SessionEventView::Segment { text: text@ }),
        (SessionEvent::StreamDelta { content: text })@ == (SessionEventView::StreamDelta {
            content: text@,
        }),
        (SessionEvent::RunError { error: text })@ == (SessionEventView::RunError { error: text@ }),
        (ChatInput::ActorRefused { reason: text })@ == (ChatInputView::ActorRefused {
            reason: text@,
        }),
        (ChatInput::CommandAnswered { reply: text })@ == (ChatInputView::CommandAnswered {
            reply: text@,
        }),
        (ChatInput::NoCommand { runner: text })@ == (ChatInputView::NoCommand { runner: text@ }),
        message_of(Some(text)) == text@,
        message_of(None).len() == 0,
        attachments_of(None).len() == 0,
        attachments_of(Some(names)).len() == names@.len(),
        forall|i: int|
            0 <= i < names@.len() ==> #[trigger] attachments_of(Some(names))[i] == names@[i]@,
{
}

/// Reports of tools and of the end say what they hold.
pub proof fn law_reports_say_what_they_hold(report: SessionEvent, input: ChatInput)
    ensures
        report matches SessionEvent::ToolStatus { status, tool, reasoning, message } ==> {
            &&& report@ matches SessionEventView::ToolStatus {
                status: s,
                tool: t,
                reasoning: r,
                message: m,
            }
            &&& s == status@
            &&& t == tool@
            &&& reasoning matches Some(x) ==> r == Some(x@)
            &&& reasoning is None ==> r is None
            &&& message matches Some(x) ==> m == Some(x@)
            &&& message is None ==> m is None
        },
        report matches SessionEvent::Done { success, cleaned, skip } ==> report@ == (
        SessionEventView::Done { success, cleaned: cleaned@, skip }),
        report is Other ==> report@ is Other,
        input is ActorAccepted ==> input@ is ActorAccepted,
        input matches ChatInput::RunEnded { success } ==> input@ == (ChatInputView::RunEnded {
            success,
        }),
{
}

}
