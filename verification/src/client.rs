use std::sync::Arc;

use vstd::prelude::*;

use crate::api::{build_request, message_view, request_body, ChatMessage, ChatRole, MinimaxError, MinimaxRequest, error_message, headers_view, messages_url, request_headers};
use crate::commands::{command_texts, commands_of, parse_commands, AIGeneratedCommand};
use crate::config::DirectMinimaxConfig;
use crate::json::{members_well_formed, well_formed, Json};
use crate::models::{feature_model_choices, is_minimax_choice, ModelsByFeature};

verus! {

#[verifier::external_type_specification]
#[verifier::external_body]
pub struct ExHttpClient(reqwest::Client);

/// A fresh HTTP client, made by `reqwest::Client::builder().build()`, with
/// the builder's error taken as `None`. Nothing is stated of the result:
/// the client is opaque here, and whether one can be built depends on the
/// state of the process (the TLS provider installed for the whole process),
/// not on anything passed in.
#[verifier::external_body]
fn new_http_client() -> Option<reqwest::Client> {
    match reqwest::Client::builder().build() {
        Ok(client) => Some(client),
        Err(_) => None,
    }
}

/// The most tokens asked for when turning a request into shell commands.
pub const COMMAND_MAX_TOKENS: u32 = 200;

/// The most tokens asked for in a dialogue answer.
pub const DIALOGUE_MAX_TOKENS: u32 = 1024;

/// Direct MiniMax AI client: calls the MiniMax API with the user's own key.
pub struct DirectMinimaxClient {
    config: DirectMinimaxConfig,
    http_client: reqwest::Client,
}

/// Why no commands could be generated.
#[derive(Debug, Clone, Copy, PartialEq, Eq, Structural)]
pub enum GenerateCommandsFromNaturalLanguageError {
    Other,
}

/// One exchange of an earlier conversation.
#[derive(Debug)]
pub struct TranscriptPart {
    pub user_prompt: String,
    pub assistant_answer: String,
}

impl TranscriptPart {
    /// What the user asked.
    pub fn raw_user_prompt(&self) -> (s: String)
        ensures
            s@ == self.user_prompt@,
    {
        self.user_prompt.clone()
    }

    /// What the assistant answered.
    pub fn raw_assistant_answer(&self) -> (s: String)
        ensures
            s@ == self.assistant_answer@,
    {
        self.assistant_answer.clone()
    }
}

/// What the client reports of request limits: nothing, having no server to
/// count them.
#[derive(Debug, Clone, Copy, PartialEq, Eq, Structural)]
pub struct RequestUsageInfo {}

/// The result of a dialogue request.
#[derive(Debug)]
pub enum GenerateDialogueResult {
    Success {
        answer: String,
        truncated: bool,
        request_limit_info: RequestUsageInfo,
        transcript_summarized: bool,
    },
}

/// What is generated about a command.
#[derive(Debug)]
pub struct GeneratedCommandMetadata {
    pub command: String,
    pub description: Option<String>,
    pub tags: Vec<String>,
}

/// The runs of a scheduled agent.
#[derive(Debug)]
pub struct ScheduledAgentHistory {
    pub schedule_id: String,
    pub agent_ids: Vec<String>,
    pub runs: Vec<String>,
}

/// The instruction sent to the model to turn `prompt` into shell commands.
pub open spec fn command_instruction(prompt: Seq<char>) -> Seq<char> {
    "Given the following natural language request, generate the appropriate shell command(s). Return ONLY the commands, one per line, with no additional explanation:\n\n"@
        + prompt
}

/// The messages of a dialogue: each earlier exchange as the user's message
/// followed by the assistant's, then the new prompt from the user.
pub open spec fn dialogue_messages(transcript: Seq<(Seq<char>, Seq<char>)>, prompt: Seq<char>) -> Seq<(ChatRole, Seq<char>)> {
    exchanges(transcript).push((ChatRole::User, prompt))
}

/// The earlier exchanges as messages, two for each.
pub open spec fn exchanges(transcript: Seq<(Seq<char>, Seq<char>)>) -> Seq<(ChatRole, Seq<char>)>
    decreases transcript.len(),
{
    if transcript.len() == 0 {
        seq![]
    } else {
        exchanges(transcript.drop_last()).push((ChatRole::User, transcript.last().0)).push(
            (ChatRole::Assistant, transcript.last().1),
        )
    }
}

/// The earlier exchanges give two messages each, the user's first.
proof fn lemma_exchanges_shape(transcript: Seq<(Seq<char>, Seq<char>)>)
    ensures
        exchanges(transcript).len() == 2 * transcript.len(),
        forall|i: int|
            #![trigger transcript[i]]
            0 <= i < transcript.len() ==> exchanges(transcript)[2 * i] == (ChatRole::User, transcript[i].0)
                && exchanges(transcript)[2 * i + 1] == (ChatRole::Assistant, transcript[i].1),
    decreases transcript.len(),
{
    if transcript.len() > 0 {
        let prev = transcript.drop_last();
        lemma_exchanges_shape(prev);
        assert forall|i: int|
            #![trigger transcript[i]]
            0 <= i < transcript.len() implies exchanges(transcript)[2 * i] == (ChatRole::User, transcript[i].0)
                && exchanges(transcript)[2 * i + 1] == (ChatRole::Assistant, transcript[i].1) by {
            if i < prev.len() {
                assert(prev[i] == transcript[i]);
            }
        }
    }
}

/// A dialogue sends two messages for each earlier exchange, the user's
/// before the assistant's, in the order of the transcript, and ends with
/// the new prompt from the user.
pub proof fn law_dialogue_shape(transcript: Seq<(Seq<char>, Seq<char>)>, prompt: Seq<char>)
    ensures
        dialogue_messages(transcript, prompt).len() == 2 * transcript.len() + 1,
        forall|i: int|
            #![trigger transcript[i]]
            0 <= i < transcript.len() ==> dialogue_messages(transcript, prompt)[2 * i] == (
                ChatRole::User,
                transcript[i].0,
            ) && dialogue_messages(transcript, prompt)[2 * i + 1] == (ChatRole::Assistant, transcript[i].1),
        dialogue_messages(transcript, prompt).last() == (ChatRole::User, prompt),
{
    lemma_exchanges_shape(transcript);
    let ms = dialogue_messages(transcript, prompt);
    assert forall|i: int|
        #![trigger transcript[i]]
        0 <= i < transcript.len() implies ms[2 * i] == (ChatRole::User, transcript[i].0) && ms[2 * i + 1] == (
            ChatRole::Assistant,
            transcript[i].1,
        ) by {
        assert(ms[2 * i] == exchanges(transcript)[2 * i]);
        assert(ms[2 * i + 1] == exchanges(transcript)[2 * i + 1]);
    }
}

/// A transcript as pairs of prompt and answer.
pub open spec fn transcript_view(t: Seq<TranscriptPart>) -> Seq<(Seq<char>, Seq<char>)> {
    t.map_values(|p: TranscriptPart| (p.user_prompt@, p.assistant_answer@))
}

/// The messages of a list of chat messages, as role and text.
pub open spec fn messages_view(ms: Seq<ChatMessage>) -> Seq<(ChatRole, Seq<char>)> {
    ms.map_values(|m: ChatMessage| message_view(m))
}

/// The requests of the Warp AI client interface that need the Warp server, which
/// this client does not use.
#[derive(Debug, Clone, Copy, PartialEq, Eq, Structural)]
pub enum ServerOnlyRequest {
    CreateAgentTask,
    GetAmbientAgentTask,
    SpawnAgent,
    UploadLocalHandoffSnapshot,
    ForkConversation,
    GetAiConversation,
    GetAiConversationFormat,
    GetBlockSnapshot,
    CreateFileArtifactUploadTarget,
    ConfirmFileArtifactUpload,
    GetArtifactDownload,
    PrepareAttachmentsForUpload,
    DownloadTaskAttachments,
    SendAgentMessage,
    ReportAgentEvent,
    ReadAgentMessage,
    GenerateCodeReviewContent,
}

/// What a request that needs the Warp server needs it for.
pub open spec fn server_only_subject(r: ServerOnlyRequest) -> Seq<char> {
    match r {
        ServerOnlyRequest::CreateAgentTask => "Agent tasks require"@,
        ServerOnlyRequest::GetAmbientAgentTask => "Agent tasks require"@,
        ServerOnlyRequest::SpawnAgent => "Agent spawning requires"@,
        ServerOnlyRequest::UploadLocalHandoffSnapshot => "Handoff requires"@,
        ServerOnlyRequest::ForkConversation => "Conversation fork requires"@,
        ServerOnlyRequest::GetAiConversation => "Conversations require"@,
        ServerOnlyRequest::GetAiConversationFormat => "Conversation format requires"@,
        ServerOnlyRequest::GetBlockSnapshot => "Block snapshot requires"@,
        ServerOnlyRequest::CreateFileArtifactUploadTarget => "Artifact upload requires"@,
        ServerOnlyRequest::ConfirmFileArtifactUpload => "Artifact confirmation requires"@,
        ServerOnlyRequest::GetArtifactDownload => "Artifact download requires"@,
        ServerOnlyRequest::PrepareAttachmentsForUpload => "Attachment preparation requires"@,
        ServerOnlyRequest::DownloadTaskAttachments => "Attachment download requires"@,
        ServerOnlyRequest::SendAgentMessage => "Messaging requires"@,
        ServerOnlyRequest::ReportAgentEvent => "Event reporting requires"@,
        ServerOnlyRequest::ReadAgentMessage => "Message reading requires"@,
        ServerOnlyRequest::GenerateCodeReviewContent => "Code review requires"@,
    }
}

/// The error with which a request that needs the Warp server is refused.
pub open spec fn server_only_message(r: ServerOnlyRequest) -> Seq<char> {
    server_only_subject(r) + " warp-server"@
}

/// Every request that needs the Warp server is refused with a message that
/// ends in `warp-server`.
pub proof fn law_server_only_refusal_names_server(request: ServerOnlyRequest)
    ensures
        server_only_message(request).len() >= 12,
        server_only_message(request).subrange(
            server_only_message(request).len() - 12,
            server_only_message(request).len() as int,
        ) == " warp-server"@,
{
    reveal_strlit(" warp-server");
    let m = server_only_message(request);
    assert(m.subrange(m.len() - 12, m.len() as int) =~= " warp-server"@);
}

/// The error with which `request` is refused.
pub fn server_only_error(request: ServerOnlyRequest) -> (s: String)
    ensures
        s@ == server_only_message(request),
{
    let mut s = match request {
        ServerOnlyRequest::CreateAgentTask => String::from_str("Agent tasks require"),
        ServerOnlyRequest::GetAmbientAgentTask => String::from_str("Agent tasks require"),
        ServerOnlyRequest::SpawnAgent => String::from_str("Agent spawning requires"),
        ServerOnlyRequest::UploadLocalHandoffSnapshot => String::from_str("Handoff requires"),
        ServerOnlyRequest::ForkConversation => String::from_str("Conversation fork requires"),
        ServerOnlyRequest::GetAiConversation => String::from_str("Conversations require"),
        ServerOnlyRequest::GetAiConversationFormat => String::from_str("Conversation format requires"),
        ServerOnlyRequest::GetBlockSnapshot => String::from_str("Block snapshot requires"),
        ServerOnlyRequest::CreateFileArtifactUploadTarget => String::from_str("Artifact upload requires"),
        ServerOnlyRequest::ConfirmFileArtifactUpload => String::from_str("Artifact confirmation requires"),
        ServerOnlyRequest::GetArtifactDownload => String::from_str("Artifact download requires"),
        ServerOnlyRequest::PrepareAttachmentsForUpload => String::from_str("Attachment preparation requires"),
        ServerOnlyRequest::DownloadTaskAttachments => String::from_str("Attachment download requires"),
        ServerOnlyRequest::SendAgentMessage => String::from_str("Messaging requires"),
        ServerOnlyRequest::ReportAgentEvent => String::from_str("Event reporting requires"),
        ServerOnlyRequest::ReadAgentMessage => String::from_str("Message reading requires"),
        ServerOnlyRequest::GenerateCodeReviewContent => String::from_str("Code review requires"),
    };
    s.append(" warp-server");
    s
}

impl DirectMinimaxClient {
    /// The configuration of this client.
    pub closed spec fn settings(&self) -> DirectMinimaxConfig {
        self.config
    }

    /// The HTTP client that this client holds.
    pub closed spec fn transport(&self) -> reqwest::Client {
        self.http_client
    }

    /// A client for `config`, with a fresh HTTP client; none where no HTTP
    /// client can be built in this process.
    pub fn new(config: DirectMinimaxConfig) -> (r: Option<Self>)
        ensures
            r matches Some(c) ==> c.settings() == config,
    {
        match new_http_client() {
            Some(http_client) => Some(DirectMinimaxClient { config, http_client }),
            None => None,
        }
    }

    /// The client for the configuration read from the values of the three
    /// environment variables (see `DirectMinimaxConfig::from_env`): none
    /// without an API key, and none where no HTTP client can be built.
    pub fn from_env(api_key: Option<String>, base_url: Option<String>, model: Option<String>) -> (r: Option<Arc<Self>>)
        ensures
            r is Some ==> api_key is Some,
            api_key is None ==> r is None,
            r matches Some(c) ==> DirectMinimaxConfig::from_env_spec(api_key, base_url, model, c.settings()),
    {
        match DirectMinimaxConfig::from_env(api_key, base_url, model) {
            Some(config) => match Self::new(config) {
                Some(client) => Some(Arc::new(client)),
                None => None,
            },
            None => None,
        }
    }

    /// The configuration of this client.
    pub fn config(&self) -> (c: &DirectMinimaxConfig)
        ensures
            *c == self.settings(),
    {
        &self.config
    }

    /// The HTTP client that sends this client's requests.
    pub fn http_client(&self) -> (c: &reqwest::Client)
        ensures
            *c == self.transport(),
    {
        &self.http_client
    }

    /// The request that asks the configured model for a reply to
    /// `messages` of at most `max_tokens` tokens.
    pub fn request(&self, messages: &Vec<ChatMessage>, max_tokens: u32) -> (r: MinimaxRequest)
        ensures
            r.url@ == messages_url(self.settings().base_url@),
            headers_view(r.headers@) == request_headers(self.settings().api_key@),
            r.body@ == request_body(self.settings().model@, max_tokens as nat, messages_view(messages@)),
    {
        build_request(&self.config, messages, max_tokens)
    }

    /// The request that asks the model for shell commands doing what
    /// `prompt` describes: one user message with the instruction, at most
    /// 200 tokens.
    pub fn commands_request(&self, prompt: &str) -> (r: MinimaxRequest)
        ensures
            r.url@ == messages_url(self.settings().base_url@),
            headers_view(r.headers@) == request_headers(self.settings().api_key@),
            r.body@ == request_body(
                self.settings().model@,
                200,
                seq![(ChatRole::User, command_instruction(prompt@))],
            ),
    {
        let mut content = String::from_str(
            "Given the following natural language request, generate the appropriate shell command(s). Return ONLY the commands, one per line, with no additional explanation:\n\n",
        );
        content.append(prompt);
        let mut messages: Vec<ChatMessage> = Vec::new();
        messages.push(ChatMessage { role: ChatRole::User, content });
        assert(messages_view(messages@) =~= seq![(ChatRole::User, command_instruction(prompt@))]);
        self.request(&messages, COMMAND_MAX_TOKENS)
    }

    /// The commands generated from the model's reply: those read from its
    /// text (see `parse_commands`), or `Other` where the call failed.
    pub fn commands_from_reply(reply: Result<String, MinimaxError>) -> (r: Result<
        Vec<AIGeneratedCommand>,
        GenerateCommandsFromNaturalLanguageError,
    >)
        ensures
            reply is Err ==> r == Err::<Vec<AIGeneratedCommand>, _>(GenerateCommandsFromNaturalLanguageError::Other),
            reply is Ok ==> r is Ok && command_texts(r->Ok_0@) == commands_of(reply->Ok_0@),
            r is Ok ==> forall|i: int|
                0 <= i < r->Ok_0.len() ==> (#[trigger] r->Ok_0@[i]).description is None && r->Ok_0@[i].rank == 0,
    {
        match reply {
            Ok(text) => Ok(parse_commands(text.as_str())),
            Err(_) => Err(GenerateCommandsFromNaturalLanguageError::Other),
        }
    }

    /// The messages of a dialogue: the exchanges of `transcript` in order,
    /// the user's message before the assistant's, then `prompt`.
    pub fn dialogue_messages(transcript: &Vec<TranscriptPart>, prompt: &str) -> (ms: Vec<ChatMessage>)
        ensures
            messages_view(ms@) == dialogue_messages(transcript_view(transcript@), prompt@),
    {
        let ghost t = transcript_view(transcript@);
        let mut messages: Vec<ChatMessage> = Vec::new();
        let mut i: usize = 0;
        while i < transcript.len()
            invariant
                i <= transcript.len(),
                t == transcript_view(transcript@),
                messages_view(messages@) == exchanges(t.take(i as int)),
            decreases transcript.len() - i,
        {
            let part = &transcript[i];
            messages.push(ChatMessage { role: ChatRole::User, content: part.raw_user_prompt() });
            messages.push(ChatMessage { role: ChatRole::Assistant, content: part.raw_assistant_answer() });
            proof {
                assert(t.take(i + 1).drop_last() =~= t.take(i as int));
                assert(messages_view(messages@) =~= exchanges(t.take(i + 1)));
            }
            i += 1;
        }
        assert(t.take(i as int) =~= t);
        messages.push(ChatMessage { role: ChatRole::User, content: String::from_str(prompt) });
        assert(messages_view(messages@) =~= dialogue_messages(t, prompt@));
        messages
    }

    /// The request that asks the model to answer `prompt` after the
    /// exchanges of `transcript`, in at most 1024 tokens.
    pub fn dialogue_request(&self, transcript: &Vec<TranscriptPart>, prompt: &str) -> (r: MinimaxRequest)
        ensures
            r.url@ == messages_url(self.settings().base_url@),
            headers_view(r.headers@) == request_headers(self.settings().api_key@),
            r.body@ == request_body(
                self.settings().model@,
                1024,
                dialogue_messages(transcript_view(transcript@), prompt@),
            ),
    {
        let messages = Self::dialogue_messages(transcript, prompt);
        self.request(&messages, DIALOGUE_MAX_TOKENS)
    }

    /// The answer of a dialogue from the model's reply: the reply text,
    /// neither truncated nor summarised; where the call failed, the error
    /// message behind `MiniMax API error: `.
    pub fn dialogue_result(reply: Result<String, MinimaxError>) -> (r: Result<GenerateDialogueResult, String>)
        ensures
            reply is Ok ==> (r matches Ok(GenerateDialogueResult::Success {
                answer,
                truncated,
                request_limit_info,
                transcript_summarized,
            }) && answer@ == reply->Ok_0@ && !truncated && !transcript_summarized && request_limit_info
                == RequestUsageInfo {}),
            reply is Err ==> r is Err && r->Err_0@ == "MiniMax API error: "@ + error_message(reply->Err_0),
    {
        match reply {
            Ok(answer) => Ok(
                GenerateDialogueResult::Success {
                    answer,
                    truncated: false,
                    request_limit_info: RequestUsageInfo {},
                    transcript_summarized: false,
                },
            ),
            Err(e) => {
                let mut s = String::from_str("MiniMax API error: ");
                let m = e.message();
                s.append(m.as_str());
                Err(s)
            },
        }
    }

    /// The metadata of `command`: the command itself, with no description
    /// and no tags.
    pub fn generate_metadata_for_command(&self, command: String) -> (r: Result<
        GeneratedCommandMetadata,
        GenerateCommandsFromNaturalLanguageError,
    >)
        ensures
            r matches Ok(m) && m.command == command && m.description is None && m.tags.len() == 0,
    {
        Ok(GeneratedCommandMetadata { command, description: None, tags: Vec::new() })
    }

    /// The request limits: none are known.
    pub fn get_request_limit_info(&self) -> (r: RequestUsageInfo)
        ensures
            r == (RequestUsageInfo {}),
    {
        RequestUsageInfo {}
    }

    /// The models offered for each feature (see `feature_model_choices`).
    pub fn get_feature_model_choices(&self) -> (m: ModelsByFeature)
        ensures
            is_minimax_choice(m),
    {
        feature_model_choices()
    }

    /// The models offered without charge: the same as for every feature.
    pub fn get_free_available_models(&self, referrer: Option<String>) -> (m: ModelsByFeature)
        ensures
            is_minimax_choice(m),
    {
        self.get_feature_model_choices()
    }

    /// The answer to negative feedback on a conversation: 0.
    pub fn provide_negative_feedback_response_for_ai_conversation(
        &self,
        conversation_id: String,
        request_ids: Vec<String>,
    ) -> (r: i32)
        ensures
            r == 0,
    {
        0
    }

    /// The runs of agents, as the raw JSON of the server: `{"runs":[]}`, as
    /// there are none without the server.
    pub fn list_agent_runs_raw(&self, limit: i32) -> (r: Json)
        ensures
            r matches Json::Object(members) && members.len() == 1 && members@[0].0@ == "runs"@ && (
            members@[0].1 matches Json::Array(runs) && runs.len() == 0),
            well_formed(r),
    {
        let mut members: Vec<(String, Json)> = Vec::new();
        let runs: Vec<Json> = Vec::new();
        let ghost runs_value = Json::Array(runs);
        assert(well_formed(runs_value));
        members.push((String::from_str("runs"), Json::Array(runs)));
        proof {
            assert(members@.drop_last() =~= Seq::<(String, Json)>::empty());
            assert(members@.last().1 == runs_value);
            assert(members_well_formed(members@.drop_last()));
            assert(members_well_formed(members@));
        }
        Json::Object(members)
    }

    /// Marks a message as delivered: there is nothing to record without the
    /// server, and it always succeeds.
    pub fn mark_message_delivered(&self, message_id: &str) -> (r: Result<(), String>)
        ensures
            r is Ok,
    {
        Ok(())
    }

    /// Deletes a stored conversation: none are stored without the server,
    /// and it always succeeds.
    pub fn delete_ai_conversation(&self, server_conversation_token: String) -> (r: Result<(), String>)
        ensures
            r is Ok,
    {
        Ok(())
    }

    /// Cancels an ambient agent task: none run without the server, and it
    /// always succeeds.
    pub fn cancel_ambient_agent_task(&self, task_id: &str) -> (r: Result<(), String>)
        ensures
            r is Ok,
    {
        Ok(())
    }

    /// Records the event sequence of a run: there is nothing to record
    /// without the server, and it always succeeds.
    pub fn update_event_sequence_on_server(&self, run_id: &str, sequence: i64) -> (r: Result<(), String>)
        ensures
            r is Ok,
    {
        Ok(())
    }

    /// The raw JSON of an agent run: the empty object.
    pub fn get_agent_run_raw(&self, task_id: &str) -> (r: Json)
        ensures
            r matches Json::Object(members) && members.len() == 0,
            well_formed(r),
    {
        Json::Object(Vec::new())
    }

    /// The raw JSON of a public conversation: the empty object.
    pub fn get_public_conversation(&self, conversation_id: &str) -> (r: Json)
        ensures
            r matches Json::Object(members) && members.len() == 0,
            well_formed(r),
    {
        Json::Object(Vec::new())
    }

    /// The raw JSON of the conversation of a run: the empty object.
    pub fn get_run_conversation(&self, run_id: &str) -> (r: Json)
        ensures
            r matches Json::Object(members) && members.len() == 0,
            well_formed(r),
    {
        Json::Object(Vec::new())
    }

    /// The history of a scheduled agent: always empty, with an empty
    /// schedule identifier.
    pub fn get_scheduled_agent_history(&self, schedule_id: &str) -> (h: ScheduledAgentHistory)
        ensures
            h.schedule_id@.len() == 0,
            h.agent_ids.len() == 0,
            h.runs.len() == 0,
    {
        ScheduledAgentHistory { schedule_id: String::new(), agent_ids: Vec::new(), runs: Vec::new() }
    }
}

} // verus!
