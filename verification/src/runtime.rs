//! The agent runtime's own state and its synchronous decisions: the run
//! state machine (idle, running, aborting), queued turns, the message
//! history and steering/follow-up queues, and the chat projection it owns.
//! Awaiting, broadcasting and the provider run itself happen around it.

use vstd::prelude::*;
use vstd::string::*;

use crate::domain::{ChatMessage, ChatMessageView, ChatRuntimeConfig, Role, ThreadSnapshot, ThreadView, TurnSnapshot, TurnStatus};
use crate::dup::{lemma_seq_view_push, opt_view, seq_view, Duplicate};
use crate::error::{invalid, invalid_state, map_chat_projection_error, projection_error_text, AgentRuntimeError, ErrorView, RociError, RociErrorView};
use crate::event::{events_res, AgentRuntimeEvent, EventView};
use crate::ids::{ThreadId, TurnId};
use crate::projector::{thread_at, thread_pos, ChatProjector, ProjectorView};
use crate::runtime_types::{drain_queue, drained, merged_usage, zero_usage, AgentSnapshot, AgentState, QueueDrainMode, Usage};
use crate::thread::{can_queue_turn, turn_index, turn_lookup_error, TurnProjection};
use crate::turn_ops::closing_room;

verus! {

/// The agent runtime's state.
pub struct AgentRuntime {
    state: AgentState,
    queued_turn_count: usize,
    system_prompt: Option<String>,
    messages: Vec<ChatMessage>,
    steering_queue: Vec<ChatMessage>,
    follow_up_queue: Vec<ChatMessage>,
    turn_index: usize,
    is_streaming: bool,
    last_error: Option<String>,
    session_usage: Usage,
    chat_projector: ChatProjector,
}

pub struct RuntimeView {
    pub state: AgentState,
    pub queued_turn_count: usize,
    pub system_prompt: Option<Seq<char>>,
    pub messages: Seq<ChatMessageView>,
    pub steering_queue: Seq<ChatMessageView>,
    pub follow_up_queue: Seq<ChatMessageView>,
    pub turn_index: usize,
    pub is_streaming: bool,
    pub last_error: Option<Seq<char>>,
    pub session_usage: Usage,
    pub projector: ProjectorView,
}

impl View for AgentRuntime {
    type V = RuntimeView;

    closed spec fn view(&self) -> RuntimeView {
        RuntimeView {
            state: self.state,
            queued_turn_count: self.queued_turn_count,
            system_prompt: opt_view(self.system_prompt),
            messages: seq_view(self.messages@),
            steering_queue: seq_view(self.steering_queue@),
            follow_up_queue: seq_view(self.follow_up_queue@),
            turn_index: self.turn_index,
            is_streaming: self.is_streaming,
            last_error: opt_view(self.last_error),
            session_usage: self.session_usage,
            projector: self.chat_projector@,
        }
    }
}

/// The refusal of a run while another is in progress.
pub open spec fn not_idle_for_run() -> RociErrorView {
    invalid_state("Agent is not idle; call abort() or wait_for_idle() first"@)
}

/// Why the runtime's configuration or history cannot be changed now, if it cannot.
pub open spec fn idle_mutation_error(v: RuntimeView) -> Option<RociErrorView> {
    if v.state != AgentState::Idle {
        Some(invalid_state("Agent is not idle; runtime mutation requires idle state"@))
    } else if v.queued_turn_count > 0 {
        Some(invalid_state("Agent has queued turns; runtime mutation requires drained queue"@))
    } else {
        None
    }
}

/// The runtime with `state`.
pub open spec fn with_state(v: RuntimeView, state: AgentState) -> RuntimeView {
    RuntimeView { state, ..v }
}

/// The messages a new prompt adds: the system prompt first when the history
/// is empty, then the user's text.
pub open spec fn prompt_messages(v: RuntimeView, text: Seq<char>) -> Seq<ChatMessageView> {
    let user = ChatMessageView { role: Role::User, text };
    match v.system_prompt {
        Some(sys) => if v.messages.len() == 0 {
            seq![ChatMessageView { role: Role::System, text: sys }, user]
        } else {
            seq![user]
        },
        None => seq![user],
    }
}

/// Why a run cannot continue from the history without new input, if it cannot.
pub open spec fn continue_error(v: RuntimeView) -> Option<RociErrorView> {
    if v.messages.len() == 0 {
        Some(invalid_state("No messages to continue from"@))
    } else if v.messages.last().role == Role::Assistant && v.steering_queue.len() == 0 && v.follow_up_queue.len() == 0 {
        Some(invalid_state("Cannot continue from message role: assistant"@))
    } else {
        None
    }
}

impl AgentRuntime {
    /// The runtime's state is well-formed.
    pub closed spec fn wf(&self) -> bool {
        self.chat_projector.wf()
    }

    /// An idle runtime with an empty history, projecting into a fresh default thread.
    pub fn new(config: ChatRuntimeConfig, system_prompt: Option<String>, fresh_thread_id: ThreadId) -> (r: Self)
        ensures
            r.wf(),
            r@.state == AgentState::Idle,
            r@.queued_turn_count == 0,
            r@.system_prompt == opt_view(system_prompt),
            r@.messages.len() == 0,
            r@.steering_queue.len() == 0,
            r@.follow_up_queue.len() == 0,
            r@.turn_index == 0,
            !r@.is_streaming,
            r@.last_error.is_none(),
            r@.session_usage == zero_usage(),
            r@.projector.default_thread_id == match config.default_thread_id {
                Some(id) => id,
                None => fresh_thread_id,
            },
            r@.projector.threads.len() == 1,
            r@.projector.threads[0] == crate::thread::empty_thread(r@.projector.default_thread_id, config.replay_capacity),
    {
        let r = AgentRuntime {
            state: AgentState::Idle,
            queued_turn_count: 0,
            system_prompt,
            messages: Vec::new(),
            steering_queue: Vec::new(),
            follow_up_queue: Vec::new(),
            turn_index: 0,
            is_streaming: false,
            last_error: None,
            session_usage: Usage { input_tokens: 0, output_tokens: 0, total_tokens: 0 },
            chat_projector: ChatProjector::new(config, fresh_thread_id),
        };
        proof {
            assert(r@.messages =~= Seq::<ChatMessageView>::empty());
            assert(r@.steering_queue =~= Seq::<ChatMessageView>::empty());
            assert(r@.follow_up_queue =~= Seq::<ChatMessageView>::empty());
        }
        r
    }

    /// The runtime's default semantic thread id.
    pub fn default_thread_id(&self) -> (r: ThreadId)
        ensures
            r == self@.projector.default_thread_id,
    {
        self.chat_projector.default_thread_id()
    }

    /// The run state.
    pub fn state(&self) -> (r: AgentState)
        ensures
            r == self@.state,
    {
        self.state
    }

    /// The chat projection.
    pub fn projector(&self) -> (r: &ChatProjector)
        ensures
            r@ == self@.projector,
            self.wf() ==> r.wf(),
    {
        &self.chat_projector
    }

    /// The message history.
    pub fn messages(&self) -> (r: Vec<ChatMessage>)
        ensures
            seq_view(r@) == self@.messages,
    {
        crate::dup::duplicate_vec(&self.messages)
    }

    /// The token usage of the runs kept since the runtime was created or last reset.
    pub fn session_usage(&self) -> (r: Usage)
        ensures
            r == self@.session_usage,
    {
        self.session_usage
    }

    /// The observable state at this instant.
    pub fn snapshot(&self) -> (r: AgentSnapshot)
        ensures
            r.state == self@.state,
            r.turn_index == self@.turn_index,
            r.message_count == self@.messages.len(),
            r.is_streaming == self@.is_streaming,
            opt_view(r.last_error) == self@.last_error,
    {
        AgentSnapshot {
            state: self.state,
            turn_index: self.turn_index,
            message_count: self.messages.len(),
            is_streaming: self.is_streaming,
            last_error: crate::dup::duplicate_opt(&self.last_error),
        }
    }

    /// Moves from idle to running; refused in any other state.
    pub fn transition_to_running(&mut self) -> (r: Result<(), RociError>)
        ensures
            match r {
                Ok(_) => old(self)@.state == AgentState::Idle && final(self)@ == with_state(old(self)@, AgentState::Running),
                Err(e) => old(self)@.state != AgentState::Idle && e@ == not_idle_for_run() && final(self)@ == old(self)@,
            },
            final(self).wf() == old(self).wf(),
    {
        if self.state != AgentState::Idle {
            return Err(invalid("Agent is not idle; call abort() or wait_for_idle() first"));
        }
        self.state = AgentState::Running;
        Ok(())
    }

    /// Whether the configuration or history may be changed now: only when
    /// idle with no queued turns; see [`idle_mutation_error`].
    pub fn lock_state_for_idle_mutation(&self) -> (r: Result<(), RociError>)
        ensures
            match r {
                Ok(_) => idle_mutation_error(self@).is_none(),
                Err(e) => idle_mutation_error(self@) == Some(e@),
            },
    {
        if self.state != AgentState::Idle {
            return Err(invalid("Agent is not idle; runtime mutation requires idle state"));
        }
        if self.queued_turn_count > 0 {
            return Err(invalid("Agent has queued turns; runtime mutation requires drained queue"));
        }
        Ok(())
    }

    /// Returns to idle after a run could not start.
    pub fn restore_idle(&mut self)
        ensures
            final(self)@ == with_state(old(self)@, AgentState::Idle),
            final(self).wf() == old(self).wf(),
    {
        self.state = AgentState::Idle;
    }

    /// Counts one more queued turn.
    pub fn increment_queued_turn_count(&mut self)
        requires
            old(self)@.queued_turn_count < usize::MAX,
        ensures
            final(self)@ == (RuntimeView { queued_turn_count: (old(self)@.queued_turn_count + 1) as usize, ..old(self)@ }),
            final(self).wf() == old(self).wf(),
    {
        self.queued_turn_count = self.queued_turn_count + 1;
    }

    /// Counts one queued turn less (never below zero).
    pub fn decrement_queued_turn_count(&mut self)
        ensures
            final(self)@ == (RuntimeView {
                queued_turn_count: if old(self)@.queued_turn_count == 0 {
                    0
                } else {
                    (old(self)@.queued_turn_count - 1) as usize
                },
                ..old(self)@
            }),
            final(self).wf() == old(self).wf(),
    {
        self.queued_turn_count = if self.queued_turn_count == 0 { 0 } else { self.queued_turn_count - 1 };
    }

    /// The number of queued turns not yet finished.
    pub fn queued_turn_count_for_wait(&self) -> (r: usize)
        ensures
            r == self@.queued_turn_count,
    {
        self.queued_turn_count
    }

    /// The status of turn `turn_id`, or the projection's refusal as an `InvalidState` error.
    pub fn chat_turn_status(&self, turn_id: TurnId) -> (r: Result<TurnStatus, RociError>)
        ensures
            match r {
                Ok(s) => {
                    let t = thread_at(self@.projector, turn_id.thread_id);
                    &&& thread_pos(self@.projector, turn_id.thread_id) >= 0
                    &&& turn_lookup_error(t, turn_id).is_none()
                    &&& s == t.snapshot.turns[turn_index(t, turn_id)].status
                },
                Err(e) => if thread_pos(self@.projector, turn_id.thread_id) < 0 {
                    e@ == invalid_state(projection_error_text(ErrorView::ThreadNotFound { thread_id: turn_id.thread_id }))
                } else {
                    exists|pe: ErrorView| turn_lookup_error(thread_at(self@.projector, turn_id.thread_id), turn_id) == Some(pe)
                        && e@ == invalid_state(projection_error_text(pe))
                },
            },
    {
        match self.chat_projector.turn_snapshot(turn_id) {
            Ok(turn) => Ok(turn.status),
            Err(e) => Err(map_chat_projection_error(e)),
        }
    }

    /// Queues a chat turn with `messages` on the default thread.
    pub fn queue_chat_turn(&mut self, messages: Vec<ChatMessage>, now: i64) -> (r: TurnProjection)
        requires
            old(self).wf(),
            can_queue_turn(thread_at(old(self)@.projector, old(self)@.projector.default_thread_id), messages.len() as nat),
        ensures
            final(self).wf(),
            final(self)@ == (RuntimeView { projector: final(self)@.projector, ..old(self)@ }),
            ({
                let step = crate::thread::queue_turn_spec(
                    thread_at(old(self)@.projector, old(self)@.projector.default_thread_id),
                    seq_view(messages@),
                    now,
                );
                &&& final(self)@.projector == ProjectorView {
                    threads: old(self)@.projector.threads.update(
                        thread_pos(old(self)@.projector, old(self)@.projector.default_thread_id),
                        step.0,
                    ),
                    ..old(self)@.projector
                }
                &&& r.turn_id == step.1
                &&& seq_view(r.events@) == step.2
            }),
    {
        self.chat_projector.queue_turn(messages, now)
    }

    /// Queues a steering message for the current run.
    pub fn steer(&mut self, text: &str)
        ensures
            final(self)@ == (RuntimeView {
                steering_queue: old(self)@.steering_queue.push(ChatMessageView { role: Role::User, text: text@ }),
                ..old(self)@
            }),
            final(self).wf() == old(self).wf(),
    {
        let m = ChatMessage::user(text);
        proof {
            lemma_seq_view_push(self.steering_queue@, m);
        }
        self.steering_queue.push(m);
    }

    /// Queues a follow-up message for after the run completes.
    pub fn follow_up(&mut self, text: &str)
        ensures
            final(self)@ == (RuntimeView {
                follow_up_queue: old(self)@.follow_up_queue.push(ChatMessageView { role: Role::User, text: text@ }),
                ..old(self)@
            }),
            final(self).wf() == old(self).wf(),
    {
        let m = ChatMessage::user(text);
        proof {
            lemma_seq_view_push(self.follow_up_queue@, m);
        }
        self.follow_up_queue.push(m);
    }

    /// Takes the steering messages due; see [`drained`].
    pub fn drain_steering(&mut self, mode: QueueDrainMode) -> (r: Vec<ChatMessage>)
        ensures
            seq_view(r@) == drained(old(self)@.steering_queue, mode),
            old(self)@.steering_queue == seq_view(r@) + final(self)@.steering_queue,
            final(self)@ == (RuntimeView { steering_queue: final(self)@.steering_queue, ..old(self)@ }),
            final(self).wf() == old(self).wf(),
    {
        let ghost q = self.steering_queue@;
        let r = drain_queue(&mut self.steering_queue, mode);
        proof {
            crate::dup::lemma_seq_view_add(r@, self.steering_queue@);
            assert(seq_view(drained(q, mode)) =~= drained(seq_view(q), mode));
        }
        r
    }

    /// Takes the follow-up messages due; see [`drained`].
    pub fn drain_follow_ups(&mut self, mode: QueueDrainMode) -> (r: Vec<ChatMessage>)
        ensures
            seq_view(r@) == drained(old(self)@.follow_up_queue, mode),
            old(self)@.follow_up_queue == seq_view(r@) + final(self)@.follow_up_queue,
            final(self)@ == (RuntimeView { follow_up_queue: final(self)@.follow_up_queue, ..old(self)@ }),
            final(self).wf() == old(self).wf(),
    {
        let ghost q = self.follow_up_queue@;
        let r = drain_queue(&mut self.follow_up_queue, mode);
        proof {
            crate::dup::lemma_seq_view_add(r@, self.follow_up_queue@);
            assert(seq_view(drained(q, mode)) =~= drained(seq_view(q), mode));
        }
        r
    }

    /// Clears the steering queue.
    pub fn clear_steering_queue(&mut self)
        ensures
            final(self)@ == (RuntimeView { steering_queue: Seq::empty(), ..old(self)@ }),
            final(self).wf() == old(self).wf(),
    {
        self.steering_queue = Vec::new();
        proof {
            assert(seq_view(self.steering_queue@) =~= Seq::<ChatMessageView>::empty());
        }
    }

    /// Clears the follow-up queue.
    pub fn clear_follow_up_queue(&mut self)
        ensures
            final(self)@ == (RuntimeView { follow_up_queue: Seq::empty(), ..old(self)@ }),
            final(self).wf() == old(self).wf(),
    {
        self.follow_up_queue = Vec::new();
        proof {
            assert(seq_view(self.follow_up_queue@) =~= Seq::<ChatMessageView>::empty());
        }
    }

    /// Clears both queues.
    pub fn clear_all_queues(&mut self)
        ensures
            final(self)@ == (RuntimeView { steering_queue: Seq::empty(), follow_up_queue: Seq::empty(), ..old(self)@ }),
            final(self).wf() == old(self).wf(),
    {
        self.clear_steering_queue();
        self.clear_follow_up_queue();
    }

    /// Whether a steering or follow-up message is queued.
    pub fn has_queued_messages(&self) -> (r: bool)
        ensures
            r == (self@.steering_queue.len() > 0 || self@.follow_up_queue.len() > 0),
    {
        self.steering_queue.len() > 0 || self.follow_up_queue.len() > 0
    }

    /// Replaces the system prompt, when idle with no queued turns.
    pub fn set_system_prompt(&mut self, prompt: String) -> (r: Result<(), RociError>)
        ensures
            match r {
                Ok(_) => idle_mutation_error(old(self)@).is_none() && final(self)@ == (RuntimeView {
                    system_prompt: Some(prompt@),
                    ..old(self)@
                }),
                Err(e) => idle_mutation_error(old(self)@) == Some(e@) && final(self)@ == old(self)@,
            },
            final(self).wf() == old(self).wf(),
    {
        self.lock_state_for_idle_mutation()?;
        self.system_prompt = Some(prompt);
        Ok(())
    }

    /// Clears the system prompt, when idle with no queued turns.
    pub fn clear_system_prompt(&mut self) -> (r: Result<(), RociError>)
        ensures
            match r {
                Ok(_) => idle_mutation_error(old(self)@).is_none() && final(self)@ == (RuntimeView {
                    system_prompt: None,
                    ..old(self)@
                }),
                Err(e) => idle_mutation_error(old(self)@) == Some(e@) && final(self)@ == old(self)@,
            },
            final(self).wf() == old(self).wf(),
    {
        self.lock_state_for_idle_mutation()?;
        self.system_prompt = None;
        Ok(())
    }

    /// Sets the message history.
    pub fn commit_messages(&mut self, messages: Vec<ChatMessage>)
        ensures
            final(self)@ == (RuntimeView { messages: seq_view(messages@), ..old(self)@ }),
            final(self).wf() == old(self).wf(),
    {
        self.messages = messages;
    }

    /// Starts a prompt: moves to running, appends the messages of
    /// [`prompt_messages`] to the history and returns the history to run
    /// together with those messages.
    pub fn begin_prompt(&mut self, text: &str) -> (r: Result<(Vec<ChatMessage>, Vec<ChatMessage>), RociError>)
        ensures
            match r {
                Ok((snapshot, turn_messages)) => {
                    &&& old(self)@.state == AgentState::Idle
                    &&& seq_view(turn_messages@) == prompt_messages(old(self)@, text@)
                    &&& final(self)@ == (RuntimeView {
                        state: AgentState::Running,
                        messages: old(self)@.messages + prompt_messages(old(self)@, text@),
                        ..old(self)@
                    })
                    &&& seq_view(snapshot@) == final(self)@.messages
                },
                Err(e) => old(self)@.state != AgentState::Idle && e@ == not_idle_for_run() && final(self)@ == old(self)@,
            },
            final(self).wf() == old(self).wf(),
    {
        self.transition_to_running()?;
        let ghost before = self@;
        let mut turn_messages: Vec<ChatMessage> = Vec::new();
        let ghost m0 = seq_view(self.messages@);
        if self.messages.len() == 0 {
            match &self.system_prompt {
                Some(sys) => {
                    let system_message = ChatMessage::system(sys.as_str());
                    let copy = system_message.duplicate();
                    proof {
                        lemma_seq_view_push(self.messages@, system_message);
                        lemma_seq_view_push(turn_messages@, copy);
                    }
                    self.messages.push(system_message);
                    turn_messages.push(copy);
                },
                None => {},
            }
        }
        let user_message = ChatMessage::user(text);
        let copy = user_message.duplicate();
        proof {
            lemma_seq_view_push(self.messages@, user_message);
            lemma_seq_view_push(turn_messages@, copy);
        }
        self.messages.push(user_message);
        turn_messages.push(copy);
        proof {
            assert(seq_view(turn_messages@) =~= prompt_messages(before, text@));
            assert(seq_view(self.messages@) =~= m0 + prompt_messages(before, text@));
        }
        let snapshot = crate::dup::duplicate_vec(&self.messages);
        Ok((snapshot, turn_messages))
    }

    /// Continues with new user input: moves to running, appends the user
    /// message and returns the history to run together with that message.
    pub fn begin_continue(&mut self, text: &str) -> (r: Result<(Vec<ChatMessage>, Vec<ChatMessage>), RociError>)
        ensures
            match r {
                Ok((snapshot, turn_messages)) => {
                    &&& old(self)@.state == AgentState::Idle
                    &&& seq_view(turn_messages@) == seq![ChatMessageView { role: Role::User, text: text@ }]
                    &&& final(self)@ == (RuntimeView {
                        state: AgentState::Running,
                        messages: old(self)@.messages.push(ChatMessageView { role: Role::User, text: text@ }),
                        ..old(self)@
                    })
                    &&& seq_view(snapshot@) == final(self)@.messages
                },
                Err(e) => old(self)@.state != AgentState::Idle && e@ == not_idle_for_run() && final(self)@ == old(self)@,
            },
            final(self).wf() == old(self).wf(),
    {
        self.transition_to_running()?;
        let user_message = ChatMessage::user(text);
        let copy = user_message.duplicate();
        let mut turn_messages: Vec<ChatMessage> = Vec::new();
        proof {
            lemma_seq_view_push(self.messages@, user_message);
            lemma_seq_view_push(turn_messages@, copy);
            assert(seq_view(turn_messages@.push(copy)) =~= seq![copy@]);
        }
        self.messages.push(user_message);
        turn_messages.push(copy);
        let snapshot = crate::dup::duplicate_vec(&self.messages);
        Ok((snapshot, turn_messages))
    }

    /// Continues from the history without new input: moves to running,
    /// unless there is nothing to continue from (see [`continue_error`]), in
    /// which case the runtime returns to idle; returns the history to run.
    pub fn begin_continue_without_input(&mut self) -> (r: Result<Vec<ChatMessage>, RociError>)
        ensures
            match r {
                Ok(snapshot) => {
                    &&& old(self)@.state == AgentState::Idle
                    &&& continue_error(old(self)@).is_none()
                    &&& final(self)@ == with_state(old(self)@, AgentState::Running)
                    &&& seq_view(snapshot@) == old(self)@.messages
                },
                Err(e) => if old(self)@.state != AgentState::Idle {
                    e@ == not_idle_for_run() && final(self)@ == old(self)@
                } else {
                    continue_error(old(self)@) == Some(e@) && final(self)@ == old(self)@
                },
            },
            final(self).wf() == old(self).wf(),
    {
        self.transition_to_running()?;
        if self.messages.len() == 0 {
            self.restore_idle();
            return Err(invalid("No messages to continue from"));
        }
        let last = self.messages.len() - 1;
        if self.messages[last].role == Role::Assistant {
            if self.steering_queue.len() == 0 && self.follow_up_queue.len() == 0 {
                self.restore_idle();
                return Err(invalid("Cannot continue from message role: assistant"));
            }
        }
        Ok(crate::dup::duplicate_vec(&self.messages))
    }

    /// Running becomes aborting; any other state is kept.
    pub fn transition_running_to_aborting(&mut self)
        ensures
            final(self)@ == if old(self)@.state == AgentState::Running {
                with_state(old(self)@, AgentState::Aborting)
            } else {
                old(self)@
            },
            final(self).wf() == old(self).wf(),
    {
        if self.state == AgentState::Running {
            self.state = AgentState::Aborting;
        }
    }

    /// Starts aborting a run without a semantic turn: only a running runtime
    /// can abort, and it becomes aborting.
    pub fn begin_abort(&mut self) -> (r: bool)
        ensures
            r == (old(self)@.state == AgentState::Running),
            final(self)@ == if r {
                with_state(old(self)@, AgentState::Aborting)
            } else {
                old(self)@
            },
            final(self).wf() == old(self).wf(),
    {
        if self.state != AgentState::Running {
            return false;
        }
        self.state = AgentState::Aborting;
        true
    }

    /// Records an error of background work.
    pub fn record_background_error(&mut self, message: String)
        ensures
            final(self)@ == (RuntimeView { last_error: Some(message@), ..old(self)@ }),
            final(self).wf() == old(self).wf(),
    {
        self.last_error = Some(message);
    }

    /// Sets the turn index reported by the agent loop and whether it streams.
    pub fn observe_turn(&mut self, turn_index: usize, is_streaming: bool)
        ensures
            final(self)@ == (RuntimeView { turn_index, is_streaming, ..old(self)@ }),
            final(self).wf() == old(self).wf(),
    {
        self.turn_index = turn_index;
        self.is_streaming = is_streaming;
    }
}

/// Ids of the turns still queued or running, in order.
pub open spec fn open_turn_ids(turns: Seq<crate::domain::TurnView>) -> Seq<TurnId>
    decreases turns.len(),
{
    if turns.len() == 0 {
        Seq::empty()
    } else {
        let r = open_turn_ids(turns.drop_last());
        let t = turns.last();
        if t.status == TurnStatus::Queued || t.status == TurnStatus::Running {
            r.push(t.turn_id)
        } else {
            r
        }
    }
}

/// Ids of the open turns of every thread, thread by thread.
pub open spec fn all_open_turn_ids(threads: Seq<crate::thread::ThreadStateView>) -> Seq<TurnId>
    decreases threads.len(),
{
    if threads.len() == 0 {
        Seq::empty()
    } else {
        all_open_turn_ids(threads.drop_last()) + open_turn_ids(threads.last().snapshot.turns)
    }
}

/// How closing a turn answers: its events to publish, nothing when the turn
/// is already closed with the same status, or the refusal.
pub open spec fn terminal_outcome(r: Result<Seq<EventView>, ErrorView>, status: TurnStatus) -> Result<
    Option<Seq<EventView>>,
    RociErrorView,
> {
    match r {
        Ok(es) => Ok(Some(es)),
        Err(e) => if e matches ErrorView::AlreadyTerminal { status: s, .. } && s == status {
            Ok(None)
        } else {
            Err(invalid_state(projection_error_text(e)))
        },
    }
}

/// How a provider run ended.
#[derive(Debug, Clone, Copy, PartialEq, Eq, Structural)]
pub enum RunStatus {
    Running,
    Completed,
    Failed,
    Canceled,
}

/// The end of a run: its result, or the error that kept it from producing one.
pub enum RunOutcome {
    Finished { status: RunStatus, messages: Vec<ChatMessage>, error: Option<String>, usage_delta: Option<Usage> },
    Errored { message: String },
}

/// How a run's end closes its turn: `None` while it is still running.
pub open spec fn terminal_request_spec(run: RunOutcome) -> Option<(TurnStatus, Option<Seq<char>>)> {
    match run {
        RunOutcome::Finished { status, error, .. } => match status {
            RunStatus::Completed => Some((TurnStatus::Completed, None)),
            RunStatus::Failed => Some((TurnStatus::Failed, Some(match error {
                Some(e) => e@,
                None => "run failed"@,
            }))),
            RunStatus::Canceled => Some((TurnStatus::Canceled, None)),
            RunStatus::Running => None,
        },
        RunOutcome::Errored { message } => Some((TurnStatus::Failed, Some(message@))),
    }
}

/// How a run's end closes its turn; see [`terminal_request_spec`].
pub fn terminal_request(run: &RunOutcome) -> (r: Option<(TurnStatus, Option<String>)>)
    ensures
        match r {
            Some((s, e)) => terminal_request_spec(*run) == Some((s, opt_view(e))),
            None => terminal_request_spec(*run).is_none(),
        },
{
    match run {
        RunOutcome::Finished { status, error, .. } => match status {
            RunStatus::Completed => Some((TurnStatus::Completed, None)),
            RunStatus::Failed => Some((TurnStatus::Failed, Some(match error {
                Some(e) => e.duplicate(),
                None => String::from_str("run failed"),
            }))),
            RunStatus::Canceled => Some((TurnStatus::Canceled, None)),
            RunStatus::Running => None,
        },
        RunOutcome::Errored { message } => Some((TurnStatus::Failed, Some(message.duplicate()))),
    }
}

/// The runtime after a run ends: the run's history is kept, and its usage
/// added to the session's, when its turn was closed, no plan contract failed
/// and it was not canceled; the last error follows the outcome; streaming
/// stops and the runtime is idle again.
pub open spec fn finish_run_spec(
    v: RuntimeView,
    run: RunOutcome,
    projection_succeeded: bool,
    plan_contract_error: Option<Seq<char>>,
) -> RuntimeView {
    let (messages, last_error, session_usage) = match run {
        RunOutcome::Finished { status, messages, error, usage_delta } => {
            if projection_succeeded && plan_contract_error.is_none() && status != RunStatus::Canceled {
                (seq_view(messages@), if status == RunStatus::Failed {
                    opt_view(error)
                } else {
                    None
                }, match usage_delta {
                    Some(d) => merged_usage(v.session_usage, d),
                    None => v.session_usage,
                })
            } else if plan_contract_error.is_none() && status == RunStatus::Canceled {
                (v.messages, None, v.session_usage)
            } else if projection_succeeded {
                (v.messages, plan_contract_error, v.session_usage)
            } else {
                (v.messages, Some("run finished after semantic turn was already terminal"@), v.session_usage)
            }
        },
        RunOutcome::Errored { message } => (v.messages, Some(message@), v.session_usage),
    };
    RuntimeView { messages, last_error, session_usage, is_streaming: false, state: AgentState::Idle, ..v }
}

/// The runtime after a reset: history, queues, run bookkeeping and session
/// usage cleared, the default thread rebuilt empty under its next revision,
/// and the runtime idle; an error from invalidating the replay store
/// (`invalidate_error`) is kept as the last error.
pub open spec fn reset_spec(v: RuntimeView, now: i64, invalidate_error: Option<Seq<char>>) -> RuntimeView {
    let d = v.projector.default_thread_id;
    RuntimeView {
        state: AgentState::Idle,
        messages: Seq::empty(),
        steering_queue: Seq::empty(),
        follow_up_queue: Seq::empty(),
        turn_index: 0,
        is_streaming: false,
        last_error: invalidate_error,
        session_usage: zero_usage(),
        projector: crate::projector::lift(
            v.projector,
            d,
            crate::projector::bootstrap_step(thread_at(v.projector, d), Seq::empty(), now),
        ).0,
        ..v
    }
}

/// The worker queue of typed chat turns: turns run one at a time, in order.
pub struct TurnQueue<T> {
    turns: Vec<T>,
    worker_active: bool,
}

impl<T> TurnQueue<T> {
    /// The queued turns, oldest first.
    pub closed spec fn items(&self) -> Seq<T> {
        self.turns@
    }

    /// A worker is draining the queue.
    pub closed spec fn active(&self) -> bool {
        self.worker_active
    }

    /// An empty queue with no worker.
    pub fn new() -> (r: Self)
        ensures
            r.items().len() == 0,
            !r.active(),
    {
        TurnQueue { turns: Vec::new(), worker_active: false }
    }

    /// Queues `turn`; returns whether a worker must be started (none was active).
    pub fn push(&mut self, turn: T) -> (spawn: bool)
        ensures
            final(self).items() == old(self).items().push(turn),
            spawn == !old(self).active(),
            final(self).active(),
    {
        self.turns.push(turn);
        if self.worker_active {
            false
        } else {
            self.worker_active = true;
            true
        }
    }

    /// The next turn for the worker, oldest first; when none is left the
    /// worker stops.
    pub fn next(&mut self) -> (r: Option<T>)
        ensures
            match r {
                Some(t) => old(self).items().len() > 0 && t == old(self).items()[0] && final(self).items()
                    == old(self).items().drop_first() && final(self).active() == old(self).active(),
                None => old(self).items().len() == 0 && final(self).items().len() == 0 && !final(self).active(),
            },
    {
        if self.turns.len() == 0 {
            self.worker_active = false;
            return None;
        }
        let t = self.turns.remove(0);
        proof {
            assert(self.turns@ =~= old(self).items().drop_first());
        }
        Some(t)
    }
}

/// Whether a queued turn is skipped: it was canceled, or it cannot be read.
pub fn queued_turn_skipped(status: &Result<TurnStatus, RociError>) -> (r: bool)
    ensures
        r == match status {
            Ok(s) => *s == TurnStatus::Canceled,
            Err(_) => true,
        },
{
    match status {
        Ok(s) => *s == TurnStatus::Canceled,
        Err(_) => true,
    }
}

impl AgentRuntime {
    /// Rebuilds the default thread from `messages` before the history is
    /// replaced, when idle with no queued turns; returns the new snapshot.
    pub fn replace_messages_projection(&mut self, messages: &Vec<ChatMessage>, now: i64) -> (r: Result<ThreadSnapshot, RociError>)
        requires
            old(self).wf(),
            thread_at(old(self)@.projector, old(self)@.projector.default_thread_id).snapshot.revision < u64::MAX,
            thread_at(old(self)@.projector, old(self)@.projector.default_thread_id).snapshot.last_seq < u64::MAX,
            messages.len() < u64::MAX,
        ensures
            final(self).wf(),
            match r {
                Ok(s) => {
                    &&& idle_mutation_error(old(self)@).is_none()
                    &&& final(self)@ == (RuntimeView { projector: final(self)@.projector, ..old(self)@ })
                    &&& ({
                        let step = crate::projector::bootstrap_step(
                            thread_at(old(self)@.projector, old(self)@.projector.default_thread_id),
                            seq_view(messages@),
                            now,
                        );
                        &&& (final(self)@.projector, Ok::<ThreadView, ErrorView>(s@)) == crate::projector::lift(
                            old(self)@.projector,
                            old(self)@.projector.default_thread_id,
                            step,
                        )
                    })
                },
                Err(e) => idle_mutation_error(old(self)@) == Some(e@) && final(self)@ == old(self)@,
            },
    {
        self.lock_state_for_idle_mutation()?;
        proof {
            self.chat_projector.lemma_wf();
        }
        let copy = crate::dup::duplicate_vec(messages);
        proof {
            assert(seq_view(copy@).len() == seq_view(messages@).len());
        }
        match self.chat_projector.bootstrap_thread(copy, now) {
            Ok(s) => Ok(s),
            Err(e) => Err(map_chat_projection_error(e)),
        }
    }

    /// Installs an imported thread snapshot, when idle with no queued turns;
    /// returns its snapshot.
    pub fn import_thread_projection(&mut self, thread: ThreadSnapshot) -> (r: Result<ThreadSnapshot, RociError>)
        requires
            old(self).wf(),
            crate::thread::max_turn_ordinal(thread@.turns, thread@.thread_id) < u64::MAX,
            crate::thread::max_message_ordinal(thread@.messages, thread@.thread_id) < u64::MAX,
        ensures
            final(self).wf(),
            match r {
                Ok(s) => {
                    &&& idle_mutation_error(old(self)@).is_none()
                    &&& s@ == thread@
                    &&& final(self)@ == (RuntimeView { projector: final(self)@.projector, ..old(self)@ })
                    &&& final(self)@.projector.default_thread_id == old(self)@.projector.default_thread_id
                    &&& crate::projector::thread_map(final(self)@.projector) == crate::projector::thread_map(old(self)@.projector).insert(
                        thread@.thread_id,
                        crate::thread::from_snapshot_spec(thread@, crate::projector::import_capacity(old(self)@.projector, thread@.thread_id)),
                    )
                },
                Err(e) => idle_mutation_error(old(self)@) == Some(e@) && final(self)@ == old(self)@,
            },
    {
        self.lock_state_for_idle_mutation()?;
        match self.chat_projector.import_thread(thread) {
            Ok(s) => Ok(s),
            Err(e) => Err(map_chat_projection_error(e)),
        }
    }

    /// Cancels turn `turn_id` on request; see [`crate::turn_ops::cancel_request_spec`].
    pub fn cancel_turn(&mut self, turn_id: TurnId, now: i64) -> (r: Result<(TurnStatus, Vec<AgentRuntimeEvent>, TurnSnapshot), AgentRuntimeError>)
        requires
            old(self).wf(),
            thread_pos(old(self)@.projector, turn_id.thread_id) >= 0 ==> closing_room(
                thread_at(old(self)@.projector, turn_id.thread_id),
            ),
        ensures
            final(self).wf(),
            final(self)@ == (RuntimeView { projector: final(self)@.projector, ..old(self)@ }),
                (final(self)@.projector, crate::turn_ops::cancel_res(r)) == crate::projector::lift(
                    old(self)@.projector,
                    turn_id.thread_id,
                    crate::turn_ops::cancel_request_spec(thread_at(old(self)@.projector, turn_id.thread_id), turn_id, now),
                ),
    {
        self.chat_projector.cancel_turn_request(turn_id, now)
    }

    /// Closes turn `turn_id` with `status`; see [`terminal_outcome`].
    pub fn terminal_chat_turn(&mut self, turn_id: TurnId, status: TurnStatus, error: Option<String>, now: i64) -> (r: Result<
        Option<Vec<AgentRuntimeEvent>>,
        RociError,
    >)
        requires
            old(self).wf(),
            thread_pos(old(self)@.projector, turn_id.thread_id) >= 0 ==> closing_room(
                thread_at(old(self)@.projector, turn_id.thread_id),
            ),
            status == TurnStatus::Failed ==> error.is_some(),
        ensures
            final(self).wf(),
            final(self)@ == (RuntimeView { projector: final(self)@.projector, ..old(self)@ }),
            ({
                let step = crate::projector::lift(
                    old(self)@.projector,
                    turn_id.thread_id,
                    crate::turn_ops::terminal_events_spec(
                        thread_at(old(self)@.projector, turn_id.thread_id),
                        turn_id,
                        status,
                        opt_view(error),
                        now,
                    ),
                );
                &&& final(self)@.projector == step.0
                &&& match r {
                    Ok(None) => terminal_outcome(step.1, status) == Ok::<Option<Seq<EventView>>, RociErrorView>(None),
                    Ok(Some(v)) => terminal_outcome(step.1, status) == Ok::<Option<Seq<EventView>>, RociErrorView>(Some(seq_view(v@))),
                    Err(e) => terminal_outcome(step.1, status) == Err::<Option<Seq<EventView>>, RociErrorView>(e@),
                }
            }),
    {
        let ghost p = self@.projector;
        let ghost ev = opt_view(error);
        let r0 = self.chat_projector.close_turn(turn_id, status, error, now);
        proof {
            let _ = crate::turn_ops::terminal_events_spec(thread_at(p, turn_id.thread_id), turn_id, status, ev, now);
        }
        match r0 {
            Ok(events) => Ok(Some(events)),
            Err(e) => {
                let same = match &e {
                    AgentRuntimeError::AlreadyTerminal { status: s, .. } => *s == status,
                    _ => false,
                };
                if same {
                    Ok(None)
                } else {
                    Err(map_chat_projection_error(e))
                }
            },
        }
    }

    /// The active turn of the default thread, the one an abort cancels.
    pub fn abort_target(&self) -> (r: Option<TurnId>)
        requires
            self.wf(),
        ensures
            r == thread_at(self@.projector, self@.projector.default_thread_id).snapshot.active_turn_id,
    {
        proof {
            self.chat_projector.lemma_wf();
        }
        match self.chat_projector.read_thread(self.chat_projector.default_thread_id()) {
            Ok(thread) => thread.active_turn_id,
            Err(_) => None,
        }
    }

    /// Ids of every queued or running turn, the turns a reset cancels; see [`all_open_turn_ids`].
    pub fn open_turns(&self) -> (r: Vec<TurnId>)
        ensures
            r@ == all_open_turn_ids(self@.projector.threads),
    {
        let snapshot = self.chat_projector.read_snapshot();
        let ghost threads = self@.projector.threads;
        let mut ids: Vec<TurnId> = Vec::new();
        let mut i: usize = 0;
        while i < snapshot.threads.len()
            invariant
                i <= snapshot.threads.len(),
                snapshot.threads@.len() == threads.len(),
                forall|k: int| 0 <= k < threads.len() ==> (#[trigger] snapshot.threads@[k])@ == threads[k].snapshot,
                ids@ == all_open_turn_ids(threads.take(i as int)),
            decreases snapshot.threads.len() - i,
        {
            let turns = &snapshot.threads[i].turns;
            let ghost before = ids@;
            let ghost tv = threads[i as int].snapshot.turns;
            let mut j: usize = 0;
            while j < turns.len()
                invariant
                    j <= turns.len(),
                    i < snapshot.threads.len(),
                    seq_view(turns@) == tv,
                    ids@ == before + open_turn_ids(tv.take(j as int)),
                decreases turns.len() - j,
            {
                proof {
                    assert(tv.take(j + 1).drop_last() =~= tv.take(j as int));
                }
                let status = turns[j].status;
                if status == TurnStatus::Queued || status == TurnStatus::Running {
                    ids.push(turns[j].turn_id);
                }
                proof {
                    assert(ids@ =~= before + open_turn_ids(tv.take(j + 1)));
                }
                j = j + 1;
            }
            proof {
                assert(tv.take(tv.len() as int) =~= tv);
                assert(threads.take(i + 1).drop_last() =~= threads.take(i as int));
            }
            i = i + 1;
        }
        proof {
            assert(threads.take(threads.len() as int) =~= threads);
        }
        ids
    }

    /// Clears the history, queues and run bookkeeping and rebuilds the
    /// default thread empty; returns the new snapshot.
    pub fn reset_history(&mut self, now: i64) -> (r: ThreadSnapshot)
        requires
            old(self).wf(),
            thread_at(old(self)@.projector, old(self)@.projector.default_thread_id).snapshot.revision < u64::MAX,
            thread_at(old(self)@.projector, old(self)@.projector.default_thread_id).snapshot.last_seq < u64::MAX,
        ensures
            final(self).wf(),
            final(self)@ == (RuntimeView {
                messages: Seq::empty(),
                steering_queue: Seq::empty(),
                follow_up_queue: Seq::empty(),
                turn_index: 0,
                is_streaming: false,
                last_error: None,
                session_usage: zero_usage(),
                projector: final(self)@.projector,
                ..old(self)@
            }),
            ({
                let step = crate::projector::bootstrap_step(
                    thread_at(old(self)@.projector, old(self)@.projector.default_thread_id),
                    Seq::empty(),
                    now,
                );
                (final(self)@.projector, Ok::<ThreadView, ErrorView>(r@)) == crate::projector::lift(
                    old(self)@.projector,
                    old(self)@.projector.default_thread_id,
                    step,
                )
            }),
            final(self)@ == (RuntimeView { state: old(self)@.state, ..reset_spec(old(self)@, now, None) }),
    {
        self.messages = Vec::new();
        self.session_usage = Usage { input_tokens: 0, output_tokens: 0, total_tokens: 0 };
        self.clear_all_queues();
        self.turn_index = 0;
        self.is_streaming = false;
        self.last_error = None;
        proof {
            self.chat_projector.lemma_wf();
            assert(seq_view(self.messages@) =~= Seq::<ChatMessageView>::empty());
        }
        let empty: Vec<ChatMessage> = Vec::new();
        proof {
            assert(seq_view(empty@) =~= Seq::<ChatMessageView>::empty());
        }
        match self.chat_projector.bootstrap_thread(empty, now) {
            Ok(s) => s,
            Err(_) => {
                proof {
                    assert(false);
                }
                unreached()
            },
        }
    }

    /// Ends a reset: an error from invalidating the replay store is kept as
    /// the last error, and the runtime is idle.
    pub fn finish_reset(&mut self, invalidate_error: Option<String>)
        ensures
            final(self)@ == (RuntimeView {
                state: AgentState::Idle,
                last_error: match invalidate_error {
                    Some(e) => Some(e@),
                    None => old(self)@.last_error,
                },
                ..old(self)@
            }),
            final(self).wf() == old(self).wf(),
    {
        match invalidate_error {
            Some(e) => {
                self.last_error = Some(e);
            },
            None => {},
        }
        self.state = AgentState::Idle;
    }

    /// Ends a run; see [`finish_run_spec`].
    pub fn finish_run(&mut self, run: RunOutcome, projection_succeeded: bool, plan_contract_error: Option<String>)
        ensures
            final(self)@ == finish_run_spec(old(self)@, run, projection_succeeded, opt_view(plan_contract_error)),
            final(self).wf() == old(self).wf(),
    {
        match run {
            RunOutcome::Finished { status, messages, error, usage_delta } => {
                if projection_succeeded && plan_contract_error.is_none() && status != RunStatus::Canceled {
                    self.messages = messages;
                    match usage_delta {
                        Some(d) => self.session_usage.merge(&d),
                        None => {},
                    }
                    self.last_error = if status == RunStatus::Failed {
                        error
                    } else {
                        None
                    };
                } else if plan_contract_error.is_none() && status == RunStatus::Canceled {
                    self.last_error = None;
                } else if projection_succeeded {
                    self.last_error = plan_contract_error;
                } else {
                    self.last_error = Some(String::from_str("run finished after semantic turn was already terminal"));
                }
            },
            RunOutcome::Errored { message } => {
                self.last_error = Some(message);
            },
        }
        self.is_streaming = false;
        self.state = AgentState::Idle;
    }
}

/// The first semantic failure of one run: later failures are dropped.
pub struct SemanticRunErrors {
    error: Option<AgentRuntimeError>,
}

impl SemanticRunErrors {
    /// The failure kept, if any.
    pub closed spec fn kept(&self) -> Option<ErrorView> {
        match self.error {
            Some(e) => Some(e@),
            None => None,
        }
    }

    /// A slot with no failure.
    pub fn new() -> (r: Self)
        ensures
            r.kept().is_none(),
    {
        SemanticRunErrors { error: None }
    }

    /// Keeps `error` unless a failure is already kept.
    pub fn record(&mut self, error: AgentRuntimeError)
        ensures
            final(self).kept() == match old(self).kept() {
                Some(e) => Some(e),
                None => Some(error@),
            },
    {
        if self.error.is_none() {
            self.error = Some(error);
        }
    }

    /// The failure kept, left in place.
    pub fn current(&self) -> (r: Option<AgentRuntimeError>)
        ensures
            match r {
                Some(e) => self.kept() == Some(e@),
                None => self.kept().is_none(),
            },
    {
        match &self.error {
            Some(e) => Some(e.duplicate()),
            None => None,
        }
    }

    /// Takes the failure kept, leaving the slot empty.
    pub fn take(&mut self) -> (r: Option<AgentRuntimeError>)
        ensures
            final(self).kept().is_none(),
            match r {
                Some(e) => old(self).kept() == Some(e@),
                None => old(self).kept().is_none(),
            },
    {
        let r = self.error.take();
        r
    }
}

/// How the provider ledger catches up with a run's messages.
#[derive(Debug, Clone, Copy, PartialEq, Eq, Structural)]
pub enum LedgerStep {
    /// The persisted prefix no longer matches the history: write the run's
    /// messages again as a compacted record.
    Rewrite,
    /// Append the run's messages from index `from` on.
    Append { from: usize },
}

/// The ledger step for `messages` when `persisted` of them were written and
/// the runtime's history is `current`: rewrite when more were persisted than
/// the run has, or when the history's persisted prefix differs from the
/// run's; otherwise append the rest.
pub open spec fn ledger_step_spec(persisted: nat, current: Seq<ChatMessageView>, messages: Seq<ChatMessageView>) -> LedgerStep {
    if persisted > messages.len() || (persisted <= current.len() && current.take(persisted as int) != messages.take(
        persisted as int,
    )) {
        LedgerStep::Rewrite
    } else {
        LedgerStep::Append { from: persisted as usize }
    }
}

/// Decides how the provider ledger catches up; see [`ledger_step_spec`].
pub fn provider_ledger_step(persisted: usize, current: &Vec<ChatMessage>, messages: &Vec<ChatMessage>) -> (r: LedgerStep)
    ensures
        r == ledger_step_spec(persisted as nat, seq_view(current@), seq_view(messages@)),
{
    let ghost c = seq_view(current@);
    let ghost m = seq_view(messages@);
    if persisted > messages.len() {
        return LedgerStep::Rewrite;
    }
    if persisted > current.len() {
        return LedgerStep::Append { from: persisted };
    }
    let mut i: usize = 0;
    while i < persisted
        invariant
            i <= persisted,
            persisted <= current.len(),
            persisted <= messages.len(),
            c == seq_view(current@),
            m == seq_view(messages@),
            forall|k: int| 0 <= k < i ==> c[k] == m[k],
        decreases persisted - i,
    {
        if current[i].role != messages[i].role || current[i].text != messages[i].text {
            proof {
                assert(c.take(persisted as int)[i as int] != m.take(persisted as int)[i as int]);
            }
            return LedgerStep::Rewrite;
        }
        proof {
            assert(c[i as int] == m[i as int]);
        }
        i = i + 1;
    }
    proof {
        assert(c.take(persisted as int) =~= m.take(persisted as int));
    }
    LedgerStep::Append { from: persisted }
}

/// The error a finished run reports ahead of its own result, if any: a failed
/// terminal projection first, then a broken plan contract, then the first
/// projection failure of the run's event sink, unless that failure only says
/// that this run's turn was already canceled.
pub open spec fn run_error_spec(
    turn_id: TurnId,
    projection_error: Option<RociErrorView>,
    plan_contract_error: Option<Seq<char>>,
    sink_error: Option<ErrorView>,
) -> Option<RociErrorView> {
    match projection_error {
        Some(e) => Some(e),
        None => match plan_contract_error {
            Some(m) => Some(invalid_state(m)),
            None => match sink_error {
                Some(e) => if e == (ErrorView::AlreadyTerminal { turn_id, status: TurnStatus::Canceled }) {
                    None
                } else {
                    Some(invalid_state(projection_error_text(e)))
                },
                None => None,
            },
        },
    }
}

/// Picks the error a finished run reports ahead of its own result; see [`run_error_spec`].
pub fn run_error(
    turn_id: TurnId,
    projection_error: Option<RociError>,
    plan_contract_error: Option<String>,
    sink_error: Option<AgentRuntimeError>,
) -> (r: Option<RociError>)
    ensures
        opt_view(r) == run_error_spec(turn_id, opt_view(projection_error), opt_view(plan_contract_error), opt_view(sink_error)),
{
    match projection_error {
        Some(e) => Some(e),
        None => match plan_contract_error {
            Some(m) => Some(RociError::InvalidState(m)),
            None => match sink_error {
                Some(e) => {
                    let own_cancel = match &e {
                        AgentRuntimeError::AlreadyTerminal { turn_id: t, status } => *t == turn_id && *status
                            == TurnStatus::Canceled,
                        _ => false,
                    };
                    if own_cancel {
                        None
                    } else {
                        Some(map_chat_projection_error(e))
                    }
                },
                None => None,
            },
        },
    }
}

} // verus!
