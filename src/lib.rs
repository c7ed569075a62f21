pub mod completion;
pub mod dialogue;
pub mod export;
pub mod message;
pub mod prompt;
pub mod text;

pub use completion::OpenAiApi;
pub use dialogue::{Command, State};
pub use message::{JournalMessage, Speaker, Timestamp};
