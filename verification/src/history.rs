//! Chat history records and where they live on disk. Reading and writing the
//! history files is the caller's work; the record updates themselves are
//! verified here.

use vstd::prelude::*;

verus! {

/// One message of a conversation.
pub struct ChatMessage {
    pub bot: String,
    pub content: String,
}

/// One stored conversation; `timestamp` is seconds since the Unix epoch, set
/// by the caller whenever the record changes.
pub struct ChatHistory {
    pub id: String,
    pub title: String,
    pub timestamp: u64,
    pub preview: String,
    pub messages: Vec<ChatMessage>,
}

impl ChatHistory {
    /// A fresh, empty conversation record.
    pub fn new(id: String, timestamp: u64) -> (r: Self)
        ensures
            r.id == id,
            r.title@ == Seq::<char>::empty(),
            r.timestamp == timestamp,
            r.preview@ == Seq::<char>::empty(),
            r.messages@ == Seq::<ChatMessage>::empty(),
    {
        let r = ChatHistory {
            id,
            title: String::new(),
            timestamp,
            preview: String::new(),
            messages: Vec::new(),
        };
        proof {
            assert(r.messages@ =~= Seq::<ChatMessage>::empty());
        }
        r
    }

    /// Replaces the record's content and stamps the change.
    pub fn update(&mut self, title: String, preview: String, messages: Vec<ChatMessage>, timestamp: u64)
        ensures
            final(self).id == old(self).id,
            final(self).title == title,
            final(self).preview == preview,
            final(self).messages == messages,
            final(self).timestamp == timestamp,
    {
        self.title = title;
        self.preview = preview;
        self.messages = messages;
        self.timestamp = timestamp;
    }
}

/// Knows where the history files live.
pub struct HistoryManager;

/// The directory of the history files under `config_dir`.
pub open spec fn history_dir_spec(config_dir: Seq<char>) -> Seq<char> {
    config_dir + "/histories"@
}

impl HistoryManager {
    /// Where the history files live under `config_dir`.
    pub fn get_history_dir(config_dir: &str) -> (r: String)
        ensures
            r@ == history_dir_spec(config_dir@),
    {
        let mut p = String::new();
        p.append(config_dir);
        p.append("/histories");
        p
    }

    /// The file path of the conversation `id` under `config_dir`.
    pub fn history_file_path(config_dir: &str, id: &str) -> (r: String)
        ensures
            r@ == history_dir_spec(config_dir@) + "/"@ + id@ + ".json"@,
    {
        let mut p = Self::get_history_dir(config_dir);
        p.append("/");
        p.append(id);
        p.append(".json");
        p
    }
}

} // verus!
