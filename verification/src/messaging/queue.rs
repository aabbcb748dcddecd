//! The persistent message queue, as a verified state machine.
//!
//! The queue holds two views of its outbound work: the in-memory FIFO of
//! messages awaiting delivery, and a model of the queue directory, one
//! entry per message file. Every operation's contract says exactly how
//! both change. The caller owning the real directory mirrors the file
//! model to disk after each operation: this type is the single writer of
//! its model, matching the one-process-per-directory discipline of the
//! design.

use vstd::prelude::*;

use crate::error::TmuxError;
use crate::messaging::send::MessageSender;
use crate::text::string_of;
use crate::types::{Command, CommandTarget, Message, PaneId, SessionId};

verus! {

/// A message wrapped with queue metadata. `retries` counts delivery
/// attempts; after three the message is failed and never retried again.
#[derive(Debug, Clone)]
pub struct QueuedMessage {
    pub message: Message,
    pub queued_at: u64,
    pub retries: u32,
}

impl QueuedMessage {
    /// Wraps `message` with zero retries, stamped with the current
    /// wall-clock time in epoch milliseconds.
    pub fn new(message: Message) -> (r: QueuedMessage)
        ensures
            r.message == message,
            r.retries == 0,
    {
        QueuedMessage { message, queued_at: crate::runtime::current_unix_millis(), retries: 0 }
    }

    /// The wrapped message's identifier.
    pub fn id(&self) -> (r: &str)
        ensures
            r@ == self.message.id@,
    {
        self.message.id.as_str()
    }

    /// Whether another delivery attempt is allowed.
    pub fn should_retry(&self) -> (r: bool)
        ensures
            r == (self.retries < 3),
    {
        self.retries < 3
    }
}

/// One entry of the queue-directory model: a file path and the queued
/// message it holds.
#[derive(Debug, Clone)]
pub struct StoredMessage {
    pub path: String,
    pub entry: QueuedMessage,
}

/// Counts reported by `stats`: messages awaiting delivery in memory,
/// stored files still eligible for retry, and stored files whose retries
/// are exhausted.
#[derive(Debug, Clone, PartialEq, Eq, Structural)]
pub struct QueueStats {
    pub pending: usize,
    pub queued: usize,
    pub failed: usize,
}

/// The mathematical view of the file model: path text and entry.
pub open spec fn stored_model(files: Seq<StoredMessage>) -> Seq<(Seq<char>, QueuedMessage)> {
    files.map_values(|f: StoredMessage| (f.path@, f.entry))
}

/// `files` with `(path, qm)` stored: the first entry at `path` replaced,
/// or a new entry appended when `path` is absent.
pub open spec fn spec_store(
    files: Seq<(Seq<char>, QueuedMessage)>,
    path: Seq<char>,
    qm: QueuedMessage,
) -> Seq<(Seq<char>, QueuedMessage)>
    decreases files.len(),
{
    if files.len() == 0 {
        seq![(path, qm)]
    } else if files[0].0 == path {
        seq![(path, qm)] + files.drop_first()
    } else {
        seq![files[0]] + spec_store(files.drop_first(), path, qm)
    }
}

/// The entry stored at `path`, if any.
pub open spec fn spec_lookup_store(
    files: Seq<(Seq<char>, QueuedMessage)>,
    path: Seq<char>,
) -> Option<QueuedMessage>
    decreases files.len(),
{
    if files.len() == 0 {
        None
    } else if files[0].0 == path {
        Some(files[0].1)
    } else {
        spec_lookup_store(files.drop_first(), path)
    }
}

/// One retry pass over a single file: an entry still below the retry
/// bound has its count incremented; an exhausted entry is left untouched.
pub open spec fn spec_bump(f: (Seq<char>, QueuedMessage)) -> (Seq<char>, QueuedMessage) {
    if f.1.retries < 3 {
        (f.0, QueuedMessage { retries: (f.1.retries + 1) as u32, ..f.1 })
    } else {
        f
    }
}

/// One retry pass over the whole file model.
pub open spec fn spec_bump_all(files: Seq<(Seq<char>, QueuedMessage)>) -> Seq<
    (Seq<char>, QueuedMessage),
> {
    files.map_values(|f: (Seq<char>, QueuedMessage)| spec_bump(f))
}

/// The entries a retry pass re-queues: each file still below the retry
/// bound, with its incremented count, in file order.
pub open spec fn spec_retriable(files: Seq<(Seq<char>, QueuedMessage)>) -> Seq<QueuedMessage>
    decreases files.len(),
{
    if files.len() == 0 {
        Seq::empty()
    } else {
        let rest = spec_retriable(files.drop_first());
        if files[0].1.retries < 3 {
            seq![spec_bump(files[0]).1] + rest
        } else {
            rest
        }
    }
}

/// The number of stored entries still below the retry bound.
pub open spec fn spec_count_live(files: Seq<(Seq<char>, QueuedMessage)>) -> nat
    decreases files.len(),
{
    if files.len() == 0 {
        0
    } else {
        spec_count_live(files.drop_first()) + (if files[0].1.retries < 3 {
            1nat
        } else {
            0nat
        })
    }
}

/// The number of stored entries whose retries are exhausted.
pub open spec fn spec_count_failed(files: Seq<(Seq<char>, QueuedMessage)>) -> nat
    decreases files.len(),
{
    if files.len() == 0 {
        0
    } else {
        spec_count_failed(files.drop_first()) + (if files[0].1.retries >= 3 {
            1nat
        } else {
            0nat
        })
    }
}

/// The path of the file holding a message, under the queue directory:
/// `{destination}-{message id}.msg`.
pub open spec fn spec_message_file(base: Seq<char>, destination: Seq<char>, id: Seq<char>) -> Seq<
    char,
> {
    base + "/.opencode/queue"@ + "/"@ + destination + "-"@ + id + ".msg"@
}

/// A durable FIFO of outbound messages: an in-memory queue mirrored by a
/// one-file-per-message directory model.
#[derive(Debug, Clone)]
pub struct MessageQueue {
    pub base_path: String,
    pub queue: Vec<QueuedMessage>,
    pub files: Vec<StoredMessage>,
    pub sender: MessageSender,
}

impl MessageQueue {
    /// The in-memory FIFO, oldest first.
    pub open spec fn pending(&self) -> Seq<QueuedMessage> {
        self.queue@
    }

    /// The queue-directory model.
    pub open spec fn stored(&self) -> Seq<StoredMessage> {
        self.files@
    }

    /// An empty queue rooted at `base_path`.
    pub fn new(base_path: String) -> (r: MessageQueue)
        ensures
            r.base_path@ == base_path@,
            r.pending().len() == 0,
            r.stored().len() == 0,
    {
        let sender = MessageSender::new(base_path.clone());
        MessageQueue { base_path, queue: Vec::new(), files: Vec::new(), sender }
    }

    /// The queue directory under the base path.
    pub fn queue_dir(&self) -> (r: String)
        ensures
            r@ == self.base_path@ + "/.opencode/queue"@,
    {
        crate::text::concat2(self.base_path.as_str(), "/.opencode/queue")
    }

    /// The file path for a message addressed to `destination` with
    /// identifier `message_id`.
    pub fn message_file(&self, destination: &str, message_id: &str) -> (r: String)
        ensures
            r@ == spec_message_file(self.base_path@, destination@, message_id@),
    {
        let mut v: Vec<char> = Vec::new();
        crate::text::append_str(&mut v, self.base_path.as_str());
        crate::text::append_str(&mut v, "/.opencode/queue");
        crate::text::append_str(&mut v, "/");
        crate::text::append_str(&mut v, destination);
        crate::text::append_str(&mut v, "-");
        crate::text::append_str(&mut v, message_id);
        crate::text::append_str(&mut v, ".msg");
        string_of(&v)
    }

    /// A snapshot of the file model, for mirroring to disk.
    pub fn files(&self) -> (r: Vec<StoredMessage>)
        ensures
            stored_model(r@) == stored_model(self.stored()),
    {
        let n = self.files.len();
        let mut r: Vec<StoredMessage> = Vec::new();
        let mut i: usize = 0;
        while i < n
            invariant
                n == self.files@.len(),
                i <= n,
                r@.len() == i,
                forall|k: int|
                    0 <= k < i ==> (#[trigger] r@[k]).path@ == self.files@[k].path@ && r@[k].entry
                        == self.files@[k].entry,
            decreases n - i,
        {
            r.push(
                StoredMessage {
                    path: self.files[i].path.clone(),
                    entry: clone_queued(&self.files[i].entry),
                },
            );
            i = i + 1;
        }
        proof {
            assert forall|k: int| 0 <= k < n implies stored_model(r@)[k] == stored_model(
                self.stored(),
            )[k] by {
                assert(stored_model(r@)[k] == (r@[k].path@, r@[k].entry));
                assert(stored_model(self.stored())[k] == (
                    self.files@[k].path@,
                    self.files@[k].entry,
                ));
            }
            assert(stored_model(r@) =~= stored_model(self.stored()));
        }
        r
    }

    /// Appends `message` to the queue with zero retries and stores its
    /// file, overwriting any file already at that path. The file is named
    /// by the message's pane and identifier.
    pub fn enqueue_message(&mut self, message: Message) -> (r: Result<(), TmuxError>)
        ensures
            r is Ok,
            final(self).base_path == old(self).base_path,
            final(self).pending().len() == old(self).pending().len() + 1,
            final(self).pending().drop_last() == old(self).pending(),
            final(self).pending().last().message == message,
            final(self).pending().last().retries == 0,
            stored_model(final(self).stored()) == spec_store(
                stored_model(old(self).stored()),
                spec_message_file(old(self).base_path@, message.pane_id.0@, message.id@),
                final(self).pending().last(),
            ),
    {
        let path = self.message_file(message.pane_id.0.as_str(), message.id.as_str());
        let qm = QueuedMessage::new(message);
        self.store_file(path, clone_queued(&qm));
        let ghost before = self.queue@;
        self.queue.push(qm);
        assert(self.pending().drop_last() =~= old(self).pending());
        Ok(())
    }

    /// Puts one stored entry back into the file model exactly as it was
    /// read from its file: the given path and entry, retry count and
    /// timestamps included, with the in-memory queue untouched. This is
    /// the loading half of persistence: the caller rebuilds the model
    /// from the queue directory with it, one file at a time.
    pub fn restore_stored(&mut self, path: String, entry: QueuedMessage)
        ensures
            final(self).base_path == old(self).base_path,
            final(self).pending() == old(self).pending(),
            stored_model(final(self).stored()) == spec_store(
                stored_model(old(self).stored()),
                path@,
                entry,
            ),
    {
        self.store_file(path, entry);
    }

    /// Stores `(path, qm)` in the file model: replaces the first entry at
    /// `path`, or appends one.
    fn store_file(&mut self, path: String, qm: QueuedMessage)
        ensures
            final(self).base_path == old(self).base_path,
            final(self).pending() == old(self).pending(),
            final(self).sender == old(self).sender,
            stored_model(final(self).stored()) == spec_store(
                stored_model(old(self).stored()),
                path@,
                qm,
            ),
    {
        let n = self.files.len();
        let mut i: usize = 0;
        while i < n
            invariant
                n == self.files@.len(),
                self.files@ == old(self).files@,
                self.base_path == old(self).base_path,
                self.queue@ == old(self).queue@,
                self.sender == old(self).sender,
                i <= n,
                forall|k: int| 0 <= k < i ==> (#[trigger] self.files@[k]).path@ != path@,
            decreases n - i,
        {
            if self.files[i].path == path {
                let replaced = StoredMessage { path, entry: qm };
                self.files.remove(i);
                self.files.insert(i, replaced);
                proof {
                    lemma_store_at(stored_model(old(self).files@), replaced.path@, qm, i as int);
                    assert(stored_model(self.files@) =~= stored_model(
                        old(self).files@,
                    ).update(i as int, (replaced.path@, qm)));
                }
                return ;
            }
            i = i + 1;
        }
        self.files.push(StoredMessage { path, entry: qm });
        proof {
            lemma_store_absent(stored_model(old(self).files@), self.files@.last().path@, qm);
            assert(stored_model(self.files@) =~= stored_model(old(self).files@).push(
                (self.files@.last().path@, qm),
            ));
        }
    }

    /// Creates, enqueues and stores a message for `session_id` with a
    /// fresh random identifier, addressed to the session's first pane, and
    /// returns the identifier.
    pub fn send_message(&mut self, session_id: &SessionId, content: &str) -> (r: Result<
        String,
        TmuxError,
    >)
        ensures
            r is Ok,
            final(self).base_path == old(self).base_path,
            final(self).pending().len() == old(self).pending().len() + 1,
            final(self).pending().drop_last() == old(self).pending(),
            ({
                let qm = final(self).pending().last();
                &&& qm.retries == 0
                &&& qm.message.id@ == r->Ok_0@
                &&& qm.message.id@.len() == 36
                &&& qm.message.pane_id.0@ == session_id.0@ + ":0.0"@
                &&& qm.message.content@ == content@
                &&& stored_model(final(self).stored()) == spec_store(
                    stored_model(old(self).stored()),
                    spec_message_file(
                        old(self).base_path@,
                        session_id.0@ + ":0.0"@,
                        qm.message.id@,
                    ),
                    qm,
                )
            }),
    {
        let message_id = crate::runtime::fresh_message_id();
        let pane = crate::text::concat2(session_id.0.as_str(), ":0.0");
        let millis = crate::runtime::current_unix_millis();
        let message = Message {
            id: message_id.clone(),
            pane_id: PaneId(pane),
            content: String::from_str(content),
            timestamp: millis / 1000,
        };
        match self.enqueue_message(message) {
            Ok(()) => Ok(message_id),
            Err(e) => Err(e),
        }
    }

    /// Queues a key-send command for `session_id`'s first pane. Only a
    /// pane-targeted command is supported: anything else is an
    /// `InvalidState` error and the queue is unchanged.
    pub fn send_command(&mut self, session_id: &SessionId, command: &Command) -> (r: Result<
        String,
        TmuxError,
    >)
        ensures
            r is Ok <==> command.target is Pane,
            final(self).base_path == old(self).base_path,
            command.target matches CommandTarget::Pane(p) ==> {
                let qm = final(self).pending().last();
                &&& final(self).pending().len() == old(self).pending().len() + 1
                &&& final(self).pending().drop_last() == old(self).pending()
                &&& qm.retries == 0
                &&& qm.message.id@ == r->Ok_0@
                &&& qm.message.id@.len() == 36
                &&& qm.message.pane_id.0@ == session_id.0@ + ":0.0"@
                &&& qm.message.content@ == "send-keys -t "@ + p.0@ + " "@ + command.command@
                &&& stored_model(final(self).stored()) == spec_store(
                    stored_model(old(self).stored()),
                    spec_message_file(
                        old(self).base_path@,
                        session_id.0@ + ":0.0"@,
                        qm.message.id@,
                    ),
                    qm,
                )
            },
            !(command.target is Pane) ==> {
                &&& *final(self) == *old(self)
                &&& r matches Err(e) && e matches TmuxError::InvalidState(m) && m@
                    == "Command target not supported"@
            },
    {
        match &command.target {
            CommandTarget::Pane(pane_id) => {
                let mut v: Vec<char> = Vec::new();
                crate::text::append_str(&mut v, "send-keys -t ");
                crate::text::append_str(&mut v, pane_id.0.as_str());
                crate::text::append_str(&mut v, " ");
                crate::text::append_str(&mut v, command.command.as_str());
                let text = string_of(&v);
                self.send_message(session_id, text.as_str())
            },
            _ => Err(TmuxError::InvalidState(String::from_str("Command target not supported"))),
        }
    }

    /// Queues `prompt` as a message for `session_id`. The caller is
    /// expected to hand the rendered prompt file (see
    /// [`MessageSender::render_prompt_with_metadata`]) to the pane before
    /// delivery; writing that file is the caller's concern.
    pub fn send_prompt_to_session(
        &mut self,
        session_id: &SessionId,
        prompt: &str,
        agent: &str,
    ) -> (r: Result<String, TmuxError>)
        ensures
            r is Ok,
            final(self).base_path == old(self).base_path,
            final(self).pending().len() == old(self).pending().len() + 1,
            final(self).pending().drop_last() == old(self).pending(),
            ({
                let qm = final(self).pending().last();
                &&& qm.retries == 0
                &&& qm.message.id@ == r->Ok_0@
                &&& qm.message.id@.len() == 36
                &&& qm.message.pane_id.0@ == session_id.0@ + ":0.0"@
                &&& qm.message.content@ == prompt@
                &&& stored_model(final(self).stored()) == spec_store(
                    stored_model(old(self).stored()),
                    spec_message_file(
                        old(self).base_path@,
                        session_id.0@ + ":0.0"@,
                        qm.message.id@,
                    ),
                    qm,
                )
            }),
    {
        let _ = agent;
        self.send_message(session_id, prompt)
    }

    /// Removes and returns the oldest pending message. The stored file is
    /// left in place: the caller deletes it only after successful
    /// delivery.
    pub fn dequeue(&mut self) -> (r: Option<QueuedMessage>)
        ensures
            final(self).base_path == old(self).base_path,
            final(self).stored() == old(self).stored(),
            old(self).pending().len() == 0 ==> r is None && final(self).pending() == old(
                self,
            ).pending(),
            old(self).pending().len() > 0 ==> (r matches Some(qm) && qm == old(
                self,
            ).pending().first() && final(self).pending() == old(self).pending().drop_first()),
    {
        if self.queue.len() == 0 {
            None
        } else {
            let qm = self.queue.remove(0);
            assert(self.pending() =~= old(self).pending().drop_first());
            Some(qm)
        }
    }

    /// A copy of the oldest pending message, if any.
    pub fn peek(&self) -> (r: Option<QueuedMessage>)
        ensures
            self.pending().len() == 0 ==> r is None,
            self.pending().len() > 0 ==> (r matches Some(qm) && qm == self.pending().first()),
    {
        if self.queue.len() == 0 {
            None
        } else {
            Some(clone_queued(&self.queue[0]))
        }
    }

    /// The number of pending messages.
    pub fn len(&self) -> (r: usize)
        ensures
            r == self.pending().len(),
    {
        self.queue.len()
    }

    /// Whether nothing is pending.
    pub fn is_empty(&self) -> (r: bool)
        ensures
            r == (self.pending().len() == 0),
    {
        self.queue.len() == 0
    }

    /// Empties the in-memory queue and drops every stored file;
    /// irreversible.
    pub fn clear(&mut self) -> (r: Result<(), TmuxError>)
        ensures
            r is Ok,
            final(self).base_path == old(self).base_path,
            final(self).pending().len() == 0,
            final(self).stored().len() == 0,
    {
        self.queue.clear();
        self.files.clear();
        Ok(())
    }

    /// One retry pass: every stored file still below the retry bound has
    /// its count incremented and is appended to the in-memory queue again,
    /// in file order; exhausted files are left untouched. Returns how many
    /// were re-queued.
    pub fn retry_failed(&mut self) -> (r: Result<usize, TmuxError>)
        ensures
            final(self).base_path == old(self).base_path,
            r matches Ok(n) && n == spec_retriable(stored_model(old(self).stored())).len(),
            stored_model(final(self).stored()) == spec_bump_all(stored_model(old(self).stored())),
            final(self).pending() == old(self).pending() + spec_retriable(
                stored_model(old(self).stored()),
            ),
    {
        let ghost m0 = stored_model(old(self).files@);
        let n = self.files.len();
        let mut count: usize = 0;
        let mut i: usize = 0;
        while i < n
            invariant
                n == self.files@.len(),
                n == m0.len(),
                i <= n,
                m0 == stored_model(old(self).files@),
                self.base_path == old(self).base_path,
                self.sender == old(self).sender,
                count == spec_retriable(m0.take(i as int)).len(),
                count <= i,
                stored_model(self.files@) =~= spec_bump_all(m0.take(i as int)) + m0.skip(i as int),
                self.queue@ == old(self).queue@ + spec_retriable(m0.take(i as int)),
            decreases n - i,
        {
            proof {
                lemma_retriable_take_step(m0, i as int);
                lemma_bump_all_take_step(m0, i as int);
                assert(stored_model(self.files@)[i as int] == m0[i as int]);
            }
            if self.files[i].entry.retries < 3 {
                let bumped = QueuedMessage {
                    message: clone_message(&self.files[i].entry.message),
                    queued_at: self.files[i].entry.queued_at,
                    retries: self.files[i].entry.retries + 1,
                };
                let path = self.files[i].path.clone();
                let replaced = StoredMessage { path, entry: clone_queued(&bumped) };
                let ghost prevf = self.files@;
                self.files.remove(i);
                self.files.insert(i, replaced);
                self.queue.push(bumped);
                count = count + 1;
                proof {
                    assert(self.files@ =~= prevf.update(i as int, replaced));
                    assert((replaced.path@, replaced.entry) == spec_bump(m0[i as int]));
                    assert forall|k: int| 0 <= k < n implies stored_model(self.files@)[k] == (
                    spec_bump_all(m0.take(i + 1)) + m0.skip(i + 1))[k] by {
                        assert(stored_model(self.files@)[k] == (
                            self.files@[k].path@,
                            self.files@[k].entry,
                        ));
                        if k < i {
                            assert(self.files@[k] == prevf[k]);
                            assert(stored_model(prevf)[k] == (prevf[k].path@, prevf[k].entry));
                            assert(stored_model(prevf)[k] == spec_bump_all(m0.take(i as int))[k]);
                            assert(spec_bump_all(m0.take(i + 1))[k] == spec_bump(
                                m0.take(i + 1)[k],
                            ));
                            assert(spec_bump_all(m0.take(i as int))[k] == spec_bump(
                                m0.take(i as int)[k],
                            ));
                        } else if k == i {
                        } else {
                            assert(self.files@[k] == prevf[k]);
                            assert(stored_model(prevf)[k] == (prevf[k].path@, prevf[k].entry));
                            assert(stored_model(prevf)[k] == m0.skip(i as int)[k - i]);
                        }
                    }
                    assert(stored_model(self.files@) =~= spec_bump_all(m0.take(i + 1)) + m0.skip(
                        i + 1,
                    ));
                    assert(self.queue@ =~= old(self).queue@ + spec_retriable(m0.take(i + 1)));
                }
            } else {
                proof {
                    assert(stored_model(self.files@) =~= spec_bump_all(m0.take(i + 1)) + m0.skip(
                        i + 1,
                    ));
                    assert(self.queue@ =~= old(self).queue@ + spec_retriable(m0.take(i + 1)));
                }
            }
            i = i + 1;
        }
        proof {
            assert(m0.take(n as int) =~= m0);
            assert(m0.skip(n as int) =~= Seq::<(Seq<char>, QueuedMessage)>::empty());
            assert(stored_model(self.files@) =~= spec_bump_all(m0));
        }
        Ok(count)
    }

    /// The current counts: pending messages in memory, stored files still
    /// eligible for retry, and stored files whose retries are exhausted.
    pub fn stats(&self) -> (r: Result<QueueStats, TmuxError>)
        ensures
            r matches Ok(st) && st.pending == self.pending().len() && st.queued == spec_count_live(
                stored_model(self.stored()),
            ) && st.failed == spec_count_failed(stored_model(self.stored())),
    {
        proof {
            assert(stored_model(self.files@).skip(0) =~= stored_model(self.files@));
        }
        let (queued, failed) = self.count_files(0);
        Ok(QueueStats { pending: self.queue.len(), queued, failed })
    }

    fn count_files(&self, from: usize) -> (r: (usize, usize))
        requires
            from <= self.stored().len(),
        ensures
            r.0 == spec_count_live(stored_model(self.stored()).skip(from as int)),
            r.1 == spec_count_failed(stored_model(self.stored()).skip(from as int)),
        decreases self.stored().len() - from,
    {
        let ghost m = stored_model(self.files@).skip(from as int);
        if from == self.files.len() {
            assert(m =~= Seq::<(Seq<char>, QueuedMessage)>::empty());
            return (0, 0);
        }
        let (q, f) = self.count_files(from + 1);
        proof {
            assert(m.drop_first() =~= stored_model(self.files@).skip(from + 1));
            assert(m[0] == (self.files@[from as int].path@, self.files@[from as int].entry));
            lemma_count_live_le_len(m.drop_first());
            lemma_count_failed_le_len(m.drop_first());
        }
        if self.files[from].entry.retries < 3 {
            (q + 1, f)
        } else {
            (q, f + 1)
        }
    }
}

// ---------------------------------------------------------------------------
// Laws
// ---------------------------------------------------------------------------

/// Storing an entry makes it the one found at its path.
pub proof fn lemma_store_lookup(
    files: Seq<(Seq<char>, QueuedMessage)>,
    path: Seq<char>,
    qm: QueuedMessage,
)
    ensures
        spec_lookup_store(spec_store(files, path, qm), path) == Some(qm),
    decreases files.len(),
{
    if files.len() == 0 {
        assert(spec_store(files, path, qm) == seq![(path, qm)]);
    } else if files[0].0 == path {
        assert(spec_store(files, path, qm)[0] == (path, qm));
    } else {
        lemma_store_lookup(files.drop_first(), path, qm);
        assert(spec_store(files, path, qm).drop_first() =~= spec_store(
            files.drop_first(),
            path,
            qm,
        ));
    }
}

/// Enqueueing on an empty queue and then dequeueing yields back exactly
/// the message that was enqueued, with zero retries, while its stored file
/// remains in place.
pub proof fn lemma_enqueue_dequeue_round_trip(
    pending: Seq<QueuedMessage>,
    stored: Seq<(Seq<char>, QueuedMessage)>,
    qm: QueuedMessage,
    path: Seq<char>,
)
    requires
        pending.len() == 0,
        qm.retries == 0,
    ensures
        ({
            let pending_after = pending.push(qm);
            let stored_after = spec_store(stored, path, qm);
            &&& pending_after.first() == qm
            &&& pending_after.first().retries == 0
            &&& spec_lookup_store(stored_after, path) == Some(qm)
            &&& pending_after.drop_first() =~= pending
            &&& spec_lookup_store(stored_after, path) is Some
        }),
{
    lemma_store_lookup(stored, path, qm);
}

/// What `clear` leaves of any queue state: nothing pending and nothing
/// stored.
pub open spec fn spec_cleared(
    pending: Seq<QueuedMessage>,
    stored: Seq<(Seq<char>, QueuedMessage)>,
) -> (Seq<QueuedMessage>, Seq<(Seq<char>, QueuedMessage)>) {
    (Seq::empty(), Seq::empty())
}

/// Clearing is idempotent: a second clear changes nothing, and both times
/// the counts reported are zero pending, zero queued and zero failed.
pub proof fn lemma_clear_idempotent(
    pending: Seq<QueuedMessage>,
    stored: Seq<(Seq<char>, QueuedMessage)>,
)
    ensures
        ({
            let once = spec_cleared(pending, stored);
            let twice = spec_cleared(once.0, once.1);
            &&& twice == once
            &&& once.0.len() == 0
            &&& spec_count_live(once.1) == 0
            &&& spec_count_failed(once.1) == 0
        }),
{
}

/// The retry bound: a file three times retried moves from the live count
/// to the failed count, a further pass leaves it unchanged, and it is
/// excluded from that pass's retried entries.
pub proof fn lemma_retry_bound(stored: Seq<(Seq<char>, QueuedMessage)>, i: int)
    requires
        0 <= i < stored.len(),
        stored[i].1.retries == 0,
    ensures
        ({
            let s3 = spec_bump_all(spec_bump_all(spec_bump_all(stored)));
            &&& s3.len() == stored.len()
            &&& s3[i].1.retries == 3
            &&& spec_bump(s3[i]) == s3[i]
            &&& spec_bump_all(s3)[i] == s3[i]
        }),
{
    let s1 = spec_bump_all(stored);
    let s2 = spec_bump_all(s1);
    let s3 = spec_bump_all(s2);
    assert(s1[i] == spec_bump(stored[i]));
    assert(s2[i] == spec_bump(s1[i]));
    assert(s3[i] == spec_bump(s2[i]));
    assert(spec_bump_all(s3)[i] == spec_bump(s3[i]));
}

/// A retried entry below the bound is counted live, an exhausted one
/// failed; exhausted entries are never among the retried.
pub proof fn lemma_failed_not_retried(stored: Seq<(Seq<char>, QueuedMessage)>)
    ensures
        spec_count_live(stored) + spec_count_failed(stored) == stored.len(),
        (forall|j: int| 0 <= j < stored.len() ==> (#[trigger] stored[j]).1.retries >= 3)
            ==> spec_retriable(stored).len() == 0,
    decreases stored.len(),
{
    if stored.len() > 0 {
        lemma_failed_not_retried(stored.drop_first());
    }
}

// ---------------------------------------------------------------------------
// Helpers
// ---------------------------------------------------------------------------

proof fn lemma_store_at(
    files: Seq<(Seq<char>, QueuedMessage)>,
    path: Seq<char>,
    qm: QueuedMessage,
    i: int,
)
    requires
        0 <= i < files.len(),
        files[i].0 == path,
        forall|k: int| 0 <= k < i ==> (#[trigger] files[k]).0 != path,
    ensures
        spec_store(files, path, qm) == files.update(i, (path, qm)),
    decreases i,
{
    if i == 0 {
        assert(spec_store(files, path, qm) =~= files.update(0, (path, qm)));
    } else {
        assert(files.drop_first()[i - 1].0 == path);
        assert(forall|k: int|
            0 <= k < i - 1 ==> (#[trigger] files.drop_first()[k]).0 == files[k + 1].0);
        lemma_store_at(files.drop_first(), path, qm, i - 1);
        assert(spec_store(files, path, qm) =~= files.update(i, (path, qm)));
    }
}

proof fn lemma_store_absent(
    files: Seq<(Seq<char>, QueuedMessage)>,
    path: Seq<char>,
    qm: QueuedMessage,
)
    requires
        forall|k: int| 0 <= k < files.len() ==> (#[trigger] files[k]).0 != path,
    ensures
        spec_store(files, path, qm) == files.push((path, qm)),
    decreases files.len(),
{
    if files.len() == 0 {
        assert(spec_store(files, path, qm) =~= files.push((path, qm)));
    } else {
        assert(forall|k: int|
            0 <= k < files.len() - 1 ==> (#[trigger] files.drop_first()[k]).0 == files[k + 1].0);
        lemma_store_absent(files.drop_first(), path, qm);
        assert(spec_store(files, path, qm) =~= files.push((path, qm)));
    }
}

proof fn lemma_retriable_take_step(m: Seq<(Seq<char>, QueuedMessage)>, i: int)
    requires
        0 <= i < m.len(),
    ensures
        spec_retriable(m.take(i + 1)) == spec_retriable(m.take(i)) + (if m[i].1.retries < 3 {
            seq![spec_bump(m[i]).1]
        } else {
            Seq::<QueuedMessage>::empty()
        }),
    decreases i,
{
    if i == 0 {
        assert(m.take(1).drop_first() =~= m.take(0));
        assert(m.take(1)[0] == m[0]);
        assert(spec_retriable(m.take(0)) =~= Seq::<QueuedMessage>::empty());
        assert(spec_retriable(m.take(1)) =~= spec_retriable(m.take(0)) + (if m[0].1.retries < 3 {
            seq![spec_bump(m[0]).1]
        } else {
            Seq::<QueuedMessage>::empty()
        }));
    } else {
        lemma_retriable_take_step(m.drop_first(), i - 1);
        assert(m.take(i + 1).drop_first() =~= m.drop_first().take(i));
        assert(m.take(i).drop_first() =~= m.drop_first().take(i - 1));
        assert(m.drop_first()[i - 1] == m[i]);
        assert(m.take(i + 1)[0] == m[0]);
        assert(m.take(i)[0] == m[0]);
    }
}

proof fn lemma_bump_all_take_step(m: Seq<(Seq<char>, QueuedMessage)>, i: int)
    requires
        0 <= i < m.len(),
    ensures
        spec_bump_all(m.take(i + 1)) == spec_bump_all(m.take(i)).push(spec_bump(m[i])),
{
    assert(spec_bump_all(m.take(i + 1)) =~= spec_bump_all(m.take(i)).push(spec_bump(m[i])));
}

proof fn lemma_count_live_le_len(m: Seq<(Seq<char>, QueuedMessage)>)
    ensures
        spec_count_live(m) <= m.len(),
    decreases m.len(),
{
    if m.len() > 0 {
        lemma_count_live_le_len(m.drop_first());
    }
}

proof fn lemma_count_failed_le_len(m: Seq<(Seq<char>, QueuedMessage)>)
    ensures
        spec_count_failed(m) <= m.len(),
    decreases m.len(),
{
    if m.len() > 0 {
        lemma_count_failed_le_len(m.drop_first());
    }
}

/// A fresh copy of a message.
fn clone_message(m: &Message) -> (r: Message)
    ensures
        r == *m,
{
    Message {
        id: m.id.clone(),
        pane_id: PaneId(m.pane_id.0.clone()),
        content: m.content.clone(),
        timestamp: m.timestamp,
    }
}

/// A fresh copy of a queued message.
fn clone_queued(qm: &QueuedMessage) -> (r: QueuedMessage)
    ensures
        r == *qm,
{
    QueuedMessage {
        message: clone_message(&qm.message),
        queued_at: qm.queued_at,
        retries: qm.retries,
    }
}

} // verus!
