//! Notifications: what a message must hold before it is sent, where it is
//! sent to, how the service's answer is read, and when a failed delivery is
//! tried again.

use crate::error::{Error, ErrorView};
use crate::provider::TOO_MANY_REQUESTS;
use crate::strings::{decimal_text, push_decimal};
use vstd::prelude::*;
use vstd::string::StringExecFns;

verus! {

/// What every address of the messaging service begins with; the bot's token
/// follows.
pub const TELEGRAM_API_BASE: &'static str = "https://api.telegram.org/bot";

/// How long a request may take, in milliseconds, unless configured.
pub const DEFAULT_TIMEOUT_MS: u64 = 10_000;

/// The greatest number of characters in a message.
pub const MAX_MESSAGE_LENGTH: usize = 4096;

/// How often a failed delivery is tried again, unless configured.
pub const DEFAULT_RETRY_ATTEMPTS: u32 = 3;

/// How long to wait before a delivery is tried again, in milliseconds,
/// unless configured.
pub const RETRY_DELAY_MS: u64 = 1000;

/// How the text of a message is marked up.
#[derive(Debug, Clone, Copy, PartialEq, Eq, Structural)]
pub enum ParseMode {
    Markdown,
    Html,
    MarkdownV2,
}

/// What kind of file is sent.
#[derive(Debug, Clone, Copy, PartialEq, Eq, Structural)]
pub enum FileType {
    Document,
    Photo,
    Video,
    Audio,
}

impl FileType {
    /// The method of the service that takes such a file.
    pub open spec fn method_name(self) -> Seq<char> {
        match self {
            FileType::Document => "sendDocument"@,
            FileType::Photo => "sendPhoto"@,
            FileType::Video => "sendVideo"@,
            FileType::Audio => "sendAudio"@,
        }
    }

    /// The field of the form in which such a file travels.
    pub open spec fn field_name(self) -> Seq<char> {
        match self {
            FileType::Document => "document"@,
            FileType::Photo => "photo"@,
            FileType::Video => "video"@,
            FileType::Audio => "audio"@,
        }
    }

    /// The method of the service that takes such a file.
    pub fn method(&self) -> (r: &'static str)
        ensures
            r@ == self.method_name(),
    {
        match self {
            FileType::Document => "sendDocument",
            FileType::Photo => "sendPhoto",
            FileType::Video => "sendVideo",
            FileType::Audio => "sendAudio",
        }
    }

    /// The field of the form in which such a file travels.
    pub fn field(&self) -> (r: &'static str)
        ensures
            r@ == self.field_name(),
    {
        match self {
            FileType::Document => "document",
            FileType::Photo => "photo",
            FileType::Video => "video",
            FileType::Audio => "audio",
        }
    }
}

/// How the messaging service is reached.
#[derive(Debug, Clone)]
pub struct TelegramConfig {
    pub token: String,
    /// How long a request may take, in milliseconds.
    pub timeout_ms: u64,
    /// How often a failed delivery is tried again.
    pub retry_attempts: u32,
    /// How long to wait before a delivery is tried again, in milliseconds.
    pub retry_delay_ms: u64,
}

impl Default for TelegramConfig {
    fn default() -> (c: TelegramConfig)
        ensures
            c.token@ == Seq::<char>::empty(),
            c.timeout_ms == DEFAULT_TIMEOUT_MS,
            c.retry_attempts == DEFAULT_RETRY_ATTEMPTS,
            c.retry_delay_ms == RETRY_DELAY_MS,
    {
        TelegramConfig {
            token: String::new(),
            timeout_ms: DEFAULT_TIMEOUT_MS,
            retry_attempts: DEFAULT_RETRY_ATTEMPTS,
            retry_delay_ms: RETRY_DELAY_MS,
        }
    }
}

impl TelegramConfig {
    /// The address of a method of the service.
    pub fn method_url(&self, method: &str) -> (r: String)
        ensures
            r@ == TELEGRAM_API_BASE@ + self.token@ + seq!['/'] + method@,
    {
        let mut out = TELEGRAM_API_BASE.to_owned();
        out.append(self.token.as_str());
        out.push('/');
        out.append(method);
        out
    }
}

/// A row of buttons: each a caption and the address it opens.
pub type ButtonRow = Vec<(String, String)>;

/// A message that is ready to be sent.
#[derive(Debug)]
pub struct Message<'a> {
    pub chat_id: i64,
    pub text: &'a str,
    pub parse_mode: Option<ParseMode>,
    pub disable_web_page_preview: Option<bool>,
    pub disable_notification: Option<bool>,
    pub reply_to_message_id: Option<i64>,
    /// The rows of buttons under the message; `None` where there are none.
    pub reply_markup: Option<Vec<ButtonRow>>,
}

/// Collects what a message holds.
pub struct MessageBuilder<'a> {
    pub chat_id: Option<i64>,
    pub text: Option<&'a str>,
    pub parse_mode: Option<ParseMode>,
    pub disable_preview: Option<bool>,
    pub silent: Option<bool>,
    pub reply_to: Option<i64>,
    pub buttons: Vec<ButtonRow>,
}

impl<'a> MessageBuilder<'a> {
    /// A builder that holds nothing yet.
    pub fn new() -> (b: Self)
        ensures
            b.chat_id is None,
            b.text is None,
            b.parse_mode is None,
            b.disable_preview is None,
            b.silent is None,
            b.reply_to is None,
            b.buttons@.len() == 0,
    {
        MessageBuilder {
            chat_id: None,
            text: None,
            parse_mode: None,
            disable_preview: None,
            silent: None,
            reply_to: None,
            buttons: Vec::new(),
        }
    }

    /// Sets the chat that the message goes to.
    pub fn chat_id(self, id: i64) -> (b: Self)
        ensures
            b == (MessageBuilder { chat_id: Some(id), ..self }),
    {
        let mut b = self;
        b.chat_id = Some(id);
        b
    }

    /// Sets the text.
    pub fn text(self, text: &'a str) -> (b: Self)
        ensures
            b == (MessageBuilder { text: Some(text), ..self }),
    {
        let mut b = self;
        b.text = Some(text);
        b
    }

    /// Sets how the text is marked up.
    pub fn parse_mode(self, mode: ParseMode) -> (b: Self)
        ensures
            b == (MessageBuilder { parse_mode: Some(mode), ..self }),
    {
        let mut b = self;
        b.parse_mode = Some(mode);
        b
    }

    /// Asks that links in the text are not previewed.
    pub fn disable_preview(self) -> (b: Self)
        ensures
            b == (MessageBuilder { disable_preview: Some(true), ..self }),
    {
        let mut b = self;
        b.disable_preview = Some(true);
        b
    }

    /// Asks that the message arrives without a sound.
    pub fn silent(self) -> (b: Self)
        ensures
            b == (MessageBuilder { silent: Some(true), ..self }),
    {
        let mut b = self;
        b.silent = Some(true);
        b
    }

    /// Makes the message a reply to another.
    pub fn reply_to(self, message_id: i64) -> (b: Self)
        ensures
            b == (MessageBuilder { reply_to: Some(message_id), ..self }),
    {
        let mut b = self;
        b.reply_to = Some(message_id);
        b
    }

    /// Adds a row of buttons under the message.
    pub fn button(self, buttons: ButtonRow) -> (b: Self)
        ensures
            b.buttons@ == self.buttons@.push(buttons),
            b == (MessageBuilder { buttons: b.buttons, ..self }),
    {
        let mut b = self;
        b.buttons.push(buttons);
        b
    }

    /// The notice about a text of `n` characters, which is too long.
    pub open spec fn too_long(n: nat) -> Seq<char> {
        "Message too long: "@ + decimal_text(n) + " characters (max 4096)"@
    }

    /// The message, where the builder holds a chat and a text of at most
    /// 4096 characters; else what is missing or wrong, the chat first.
    pub fn build(self) -> (r: Result<Message<'a>, Error>)
        ensures
            match r {
                Ok(m) => {
                    &&& self.chat_id == Some(m.chat_id)
                    &&& self.text == Some(m.text)
                    &&& m.text@.len() <= MAX_MESSAGE_LENGTH
                    &&& m.parse_mode == self.parse_mode
                    &&& m.disable_web_page_preview == self.disable_preview
                    &&& m.disable_notification == self.silent
                    &&& m.reply_to_message_id == self.reply_to
                    &&& m.reply_markup == if self.buttons@.len() > 0 {
                        Some(self.buttons)
                    } else {
                        None
                    }
                },
                Err(e) => {
                    if self.chat_id is None {
                        e@ == ErrorView::ApiError("Chat ID is required"@)
                    } else if self.text is None {
                        e@ == ErrorView::ApiError("Message text is required"@)
                    } else {
                        &&& self.text->Some_0@.len() > MAX_MESSAGE_LENGTH
                        &&& e@ == ErrorView::ApiError(Self::too_long(self.text->Some_0@.len()))
                    }
                },
            },
    {
        let chat_id = match self.chat_id {
            Some(id) => id,
            None => {
                return Err(Error::ApiError("Chat ID is required".to_owned()));
            },
        };
        let text = match self.text {
            Some(text) => text,
            None => {
                return Err(Error::ApiError("Message text is required".to_owned()));
            },
        };
        let length = text.unicode_len();
        if length > MAX_MESSAGE_LENGTH {
            let mut notice = "Message too long: ".to_owned();
            push_decimal(&mut notice, length as u64);
            notice.append(" characters (max 4096)");
            return Err(Error::ApiError(notice));
        }
        let reply_markup = if self.buttons.len() > 0 {
            Some(self.buttons)
        } else {
            None
        };
        Ok(
            Message {
                chat_id,
                text,
                parse_mode: self.parse_mode,
                disable_web_page_preview: self.disable_preview,
                disable_notification: self.silent,
                reply_to_message_id: self.reply_to,
                reply_markup,
            },
        )
    }
}

/// A file that is ready to be sent.
#[derive(Debug)]
pub struct FileData<'a> {
    pub chat_id: i64,
    pub file_path: &'a str,
    pub file_name: Option<String>,
    pub caption: Option<&'a str>,
    pub file_type: FileType,
    pub buttons: Vec<ButtonRow>,
}

impl<'a> FileData<'a> {
    /// The name under which the file is sent: the one that was set, else the
    /// last part of its path, else "file".
    pub fn upload_name(&self, name_in_path: Option<&str>) -> (r: String)
        ensures
            r@ == match self.file_name {
                Some(n) => n@,
                None => match name_in_path {
                    Some(n) => n@,
                    None => "file"@,
                },
            },
    {
        match &self.file_name {
            Some(n) => n.clone(),
            None => match name_in_path {
                Some(n) => n.to_owned(),
                None => "file".to_owned(),
            },
        }
    }
}

/// Collects what a message with a file holds.
pub struct FileMessageBuilder<'a> {
    pub chat_id: Option<i64>,
    pub file_path: Option<&'a str>,
    pub file_name: Option<String>,
    pub caption: Option<&'a str>,
    pub file_type: Option<FileType>,
    pub buttons: Vec<ButtonRow>,
}

impl<'a> FileMessageBuilder<'a> {
    /// A builder that holds nothing yet.
    pub fn new() -> (b: Self)
        ensures
            b.chat_id is None,
            b.file_path is None,
            b.file_name is None,
            b.caption is None,
            b.file_type is None,
            b.buttons@.len() == 0,
    {
        FileMessageBuilder {
            chat_id: None,
            file_path: None,
            file_name: None,
            caption: None,
            file_type: None,
            buttons: Vec::new(),
        }
    }

    /// Sets the chat that the file goes to.
    pub fn chat_id(self, id: i64) -> (b: Self)
        ensures
            b == (FileMessageBuilder { chat_id: Some(id), ..self }),
    {
        let mut b = self;
        b.chat_id = Some(id);
        b
    }

    /// Sets the path of the file.
    pub fn file(self, path: &'a str) -> (b: Self)
        ensures
            b == (FileMessageBuilder { file_path: Some(path), ..self }),
    {
        let mut b = self;
        b.file_path = Some(path);
        b
    }

    /// Sets the name under which the file is sent.
    pub fn file_name(self, name: String) -> (b: Self)
        ensures
            b == (FileMessageBuilder { file_name: Some(name), ..self }),
    {
        let mut b = self;
        b.file_name = Some(name);
        b
    }

    /// Sets the caption.
    pub fn caption(self, text: &'a str) -> (b: Self)
        ensures
            b == (FileMessageBuilder { caption: Some(text), ..self }),
    {
        let mut b = self;
        b.caption = Some(text);
        b
    }

    /// Sets what kind of file it is.
    pub fn file_type(self, file_type: FileType) -> (b: Self)
        ensures
            b == (FileMessageBuilder { file_type: Some(file_type), ..self }),
    {
        let mut b = self;
        b.file_type = Some(file_type);
        b
    }

    /// Adds a row of buttons under the file.
    pub fn buttons(self, buttons: ButtonRow) -> (b: Self)
        ensures
            b.buttons@ == self.buttons@.push(buttons),
            b == (FileMessageBuilder { buttons: b.buttons, ..self }),
    {
        let mut b = self;
        b.buttons.push(buttons);
        b
    }

    /// The file to send, where the builder holds a chat, a path and a kind;
    /// else what is missing, in that order.
    pub fn build(self) -> (r: Result<FileData<'a>, Error>)
        ensures
            match r {
                Ok(f) => {
                    &&& self.chat_id == Some(f.chat_id)
                    &&& self.file_path == Some(f.file_path)
                    &&& self.file_type == Some(f.file_type)
                    &&& f.file_name == self.file_name
                    &&& f.caption == self.caption
                    &&& f.buttons == self.buttons
                },
                Err(e) => {
                    if self.chat_id is None {
                        e@ == ErrorView::ApiError("Chat ID is required"@)
                    } else if self.file_path is None {
                        e@ == ErrorView::ApiError("File path is required"@)
                    } else {
                        &&& self.file_type is None
                        &&& e@ == ErrorView::ApiError("File type is required"@)
                    }
                },
            },
    {
        let chat_id = match self.chat_id {
            Some(id) => id,
            None => {
                return Err(Error::ApiError("Chat ID is required".to_owned()));
            },
        };
        let file_path = match self.file_path {
            Some(path) => path,
            None => {
                return Err(Error::ApiError("File path is required".to_owned()));
            },
        };
        let file_type = match self.file_type {
            Some(kind) => kind,
            None => {
                return Err(Error::ApiError("File type is required".to_owned()));
            },
        };
        Ok(
            FileData {
                chat_id,
                file_path,
                file_name: self.file_name,
                caption: self.caption,
                file_type,
                buttons: self.buttons,
            },
        )
    }
}

/// Collects how the messaging service is reached.
pub struct TelegramClientBuilder {
    pub config: TelegramConfig,
}

impl TelegramClientBuilder {
    /// A builder with the settings that hold unless configured.
    pub fn new() -> (b: Self)
        ensures
            b.config.token@ == Seq::<char>::empty(),
            b.config.timeout_ms == DEFAULT_TIMEOUT_MS,
            b.config.retry_attempts == DEFAULT_RETRY_ATTEMPTS,
            b.config.retry_delay_ms == RETRY_DELAY_MS,
    {
        TelegramClientBuilder { config: TelegramConfig::default() }
    }

    /// Sets the bot's token.
    pub fn token(self, token: String) -> (b: Self)
        ensures
            b.config == (TelegramConfig { token, ..self.config }),
    {
        let mut b = self;
        b.config.token = token;
        b
    }

    /// Sets how long a request may take, in milliseconds.
    pub fn timeout(self, timeout_ms: u64) -> (b: Self)
        ensures
            b.config == (TelegramConfig { timeout_ms, ..self.config }),
    {
        let mut b = self;
        b.config.timeout_ms = timeout_ms;
        b
    }

    /// Sets how often a failed delivery is tried again.
    pub fn retry_attempts(self, attempts: u32) -> (b: Self)
        ensures
            b.config == (TelegramConfig { retry_attempts: attempts, ..self.config }),
    {
        let mut b = self;
        b.config.retry_attempts = attempts;
        b
    }

    /// Sets how long to wait before a delivery is tried again, in
    /// milliseconds.
    pub fn retry_delay(self, delay_ms: u64) -> (b: Self)
        ensures
            b.config == (TelegramConfig { retry_delay_ms: delay_ms, ..self.config }),
    {
        let mut b = self;
        b.config.retry_delay_ms = delay_ms;
        b
    }

    /// The settings, where they hold a token.
    pub fn validate(self) -> (r: Result<TelegramConfig, Error>)
        ensures
            match r {
                Ok(c) => c == self.config && self.config.token@.len() > 0,
                Err(e) => self.config.token@.len() == 0 && e@ == ErrorView::ConfigError(
                    "Bot token cannot be empty"@,
                ),
            },
    {
        if self.config.token.as_str().is_empty() {
            return Err(Error::ConfigError("Bot token cannot be empty".to_owned()));
        }
        Ok(self.config)
    }
}

/// What the service's answer to a delivery means.
pub open spec fn delivery_result(
    status: u16,
    status_text: Seq<char>,
    ok: bool,
    description: Seq<char>,
) -> Result<(), ErrorView> {
    if status == TOO_MANY_REQUESTS {
        Err(ErrorView::RateLimitExceeded)
    } else if !ok {
        Err(ErrorView::ApiError(status_text + ": "@ + description))
    } else {
        Ok(())
    }
}

/// An optional error, seen as a mathematical value.
pub open spec fn outcome_view(r: Result<(), Error>) -> Result<(), ErrorView> {
    match r {
        Ok(()) => Ok(()),
        Err(e) => Err(e@),
    }
}

/// Reads the service's answer to a delivery: the status of the response, the
/// status as it is shown, and the two fields of the answer.
pub fn read_response(status: u16, status_text: &str, ok: bool, description: &str) -> (r: Result<
    (),
    Error,
>)
    ensures
        outcome_view(r) == delivery_result(status, status_text@, ok, description@),
{
    if status == TOO_MANY_REQUESTS {
        return Err(Error::RateLimitExceeded);
    }
    if !ok {
        let mut detail = status_text.to_owned();
        detail.append(": ");
        detail.append(description);
        return Err(Error::ApiError(detail));
    }
    Ok(())
}

/// What to do after an attempt to deliver.
#[derive(Debug)]
pub enum NextStep {
    /// The delivery succeeded.
    Done,
    /// Wait this many milliseconds and try again.
    RetryAfter(u64),
    /// Give up with the error of the last attempt.
    Fail(Error),
}

/// What to do after attempt number `attempt`, counted from 0, ended with
/// `outcome`: a failure is tried again after the configured delay, until the
/// configured number of further attempts is used up.
pub fn after_attempt(config: &TelegramConfig, attempt: u32, outcome: Result<(), Error>) -> (r:
    NextStep)
    ensures
        match outcome {
            Ok(()) => r is Done,
            Err(e) => if attempt >= config.retry_attempts {
                r == NextStep::Fail(e)
            } else {
                r == NextStep::RetryAfter(config.retry_delay_ms)
            },
        },
{
    match outcome {
        Ok(()) => NextStep::Done,
        Err(e) => if attempt >= config.retry_attempts {
            NextStep::Fail(e)
        } else {
            NextStep::RetryAfter(config.retry_delay_ms)
        },
    }
}

} // verus!
