//! Prompt hand-off: where prompt files live and what they hold.
//!
//! The sender computes the path of each pane's prompt file and renders the
//! file's contents; reading and writing the file itself is the caller's
//! concern.

use vstd::prelude::*;

use crate::text::{spec_u64_digits, string_of, u64_string};
use crate::types::{PaneId, SessionId};

verus! {

/// Computes prompt-file paths and contents under a base directory.
#[derive(Debug, Clone)]
pub struct MessageSender {
    pub base_path: String,
}

/// The prompt directory under `base`.
pub open spec fn spec_prompt_dir(base: Seq<char>) -> Seq<char> {
    base + "/.opencode/prompts"@
}

/// The prompt file of pane `pane` under `base`.
pub open spec fn spec_pane_prompt_file(base: Seq<char>, pane: Seq<char>) -> Seq<char> {
    spec_prompt_dir(base) + "/"@ + pane + ".prompt.input"@
}

impl MessageSender {
    /// A sender rooted at `base_path`.
    pub fn new(base_path: String) -> (r: MessageSender)
        ensures
            r.base_path == base_path,
    {
        MessageSender { base_path }
    }

    /// The base directory.
    pub fn base_path(&self) -> (r: &str)
        ensures
            r@ == self.base_path@,
    {
        self.base_path.as_str()
    }

    /// The directory holding one prompt file per pane.
    pub fn prompt_dir(&self) -> (r: String)
        ensures
            r@ == spec_prompt_dir(self.base_path@),
    {
        crate::text::concat2(self.base_path.as_str(), "/.opencode/prompts")
    }

    /// The prompt file of pane `pane_id`.
    pub fn pane_prompt_file(&self, pane_id: &PaneId) -> (r: String)
        ensures
            r@ == spec_pane_prompt_file(self.base_path@, pane_id.0@),
    {
        let mut v: Vec<char> = Vec::new();
        crate::text::append_str(&mut v, self.base_path.as_str());
        crate::text::append_str(&mut v, "/.opencode/prompts");
        crate::text::append_str(&mut v, "/");
        crate::text::append_str(&mut v, pane_id.0.as_str());
        crate::text::append_str(&mut v, ".prompt.input");
        string_of(&v)
    }

    /// The contents of a plain prompt file: the prompt and a final
    /// newline.
    pub fn render_prompt(&self, prompt: &str) -> (r: String)
        ensures
            r@ == prompt@ + "\n"@,
    {
        crate::text::concat2(prompt, "\n")
    }

    /// The contents of a prompt file with a metadata header: the session,
    /// timestamp and agent lines, a blank line, then the prompt and a
    /// final newline.
    pub fn render_prompt_with_metadata(&self, prompt: &str, metadata: &PromptMetadata) -> (r:
        String)
        ensures
            r@ == "# "@ + metadata.session_id.0@ + "\n# timestamp: "@ + spec_u64_digits(
                metadata.timestamp as nat,
            ) + "\n# agent: "@ + metadata.agent@ + "\n\n"@ + prompt@ + "\n"@,
    {
        let mut v: Vec<char> = Vec::new();
        crate::text::append_str(&mut v, "# ");
        crate::text::append_str(&mut v, metadata.session_id.0.as_str());
        crate::text::append_str(&mut v, "\n# timestamp: ");
        let ts = u64_string(metadata.timestamp);
        crate::text::append_str(&mut v, ts.as_str());
        crate::text::append_str(&mut v, "\n# agent: ");
        crate::text::append_str(&mut v, metadata.agent.as_str());
        crate::text::append_str(&mut v, "\n\n");
        crate::text::append_str(&mut v, prompt);
        crate::text::append_str(&mut v, "\n");
        string_of(&v)
    }
}

/// The header data of a prompt file.
#[derive(Debug, Clone)]
pub struct PromptMetadata {
    pub session_id: SessionId,
    pub timestamp: u64,
    pub agent: String,
}

impl PromptMetadata {
    /// Metadata stamped with the current wall-clock time, in epoch
    /// seconds.
    pub fn new(session_id: SessionId, agent: String) -> (r: PromptMetadata)
        ensures
            r.session_id == session_id,
            r.agent == agent,
    {
        let millis = crate::runtime::current_unix_millis();
        PromptMetadata { session_id, timestamp: millis / 1000, agent }
    }
}

} // verus!
