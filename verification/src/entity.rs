//! The backends of the plugin.
use vstd::prelude::*;

use crate::upstream::OpenAiVariant;

verus! {

/// The id of the plugin.
pub const PLUGIN_ID: &'static str = "dev.mcpg.backend.llm.openai";

/// A backend of the plugin.
#[derive(Debug, Clone, Copy, PartialEq, Eq, Structural)]
pub enum Entity {
    /// Chat completions with the public API.
    Chat,
    /// Chat completions with an Azure deployment.
    AzureChat,
    /// Embeddings with the public API.
    Embedding,
    /// Embeddings with an Azure deployment.
    AzureEmbedding,
    /// Image generation with the public API.
    Image,
    /// Image generation with an Azure deployment.
    AzureImage,
    /// Text-to-speech with the public API.
    Tts,
    /// Text-to-speech with an Azure deployment.
    AzureTts,
    /// Speech-to-text with the public API.
    Stt,
    /// Speech-to-text with an Azure deployment.
    AzureStt,
}

impl Entity {
    /// Which server the backend talks to.
    pub open spec fn spec_variant(self) -> OpenAiVariant {
        match self {
            Entity::Chat | Entity::Embedding | Entity::Image | Entity::Tts | Entity::Stt => {
                OpenAiVariant::OpenAi
            },
            _ => OpenAiVariant::Azure,
        }
    }

    /// Which server the backend talks to.
    pub fn variant(self) -> (r: OpenAiVariant)
        ensures
            r == self.spec_variant(),
    {
        match self {
            Entity::Chat => OpenAiVariant::OpenAi,
            Entity::Embedding => OpenAiVariant::OpenAi,
            Entity::Image => OpenAiVariant::OpenAi,
            Entity::Tts => OpenAiVariant::OpenAi,
            Entity::Stt => OpenAiVariant::OpenAi,
            _ => OpenAiVariant::Azure,
        }
    }

    /// The name of the server under which calls are counted.
    pub open spec fn spec_label(self) -> Seq<char> {
        if self.spec_variant() == OpenAiVariant::Azure {
            "azure-openai"@
        } else {
            "openai"@
        }
    }

    /// The name of the server under which calls are counted.
    pub fn label(self) -> (r: &'static str)
        ensures
            r@ == self.spec_label(),
    {
        if self.variant() == OpenAiVariant::Azure {
            "azure-openai"
        } else {
            "openai"
        }
    }

    /// The kind under which the gateway registers the backend.
    pub open spec fn spec_kind(self) -> Seq<char> {
        match self {
            Entity::Chat => "openai.chat"@,
            Entity::AzureChat => "azure_openai.chat"@,
            Entity::Embedding => "openai.embedding"@,
            Entity::AzureEmbedding => "azure_openai.embedding"@,
            Entity::Image => "openai.image"@,
            Entity::AzureImage => "azure_openai.image"@,
            Entity::Tts => "openai.tts"@,
            Entity::AzureTts => "azure_openai.tts"@,
            Entity::Stt => "openai.stt"@,
            Entity::AzureStt => "azure_openai.stt"@,
        }
    }

    /// The kind under which the gateway registers the backend.
    pub fn kind(self) -> (r: &'static str)
        ensures
            r@ == self.spec_kind(),
    {
        match self {
            Entity::Chat => "openai.chat",
            Entity::AzureChat => "azure_openai.chat",
            Entity::Embedding => "openai.embedding",
            Entity::AzureEmbedding => "azure_openai.embedding",
            Entity::Image => "openai.image",
            Entity::AzureImage => "azure_openai.image",
            Entity::Tts => "openai.tts",
            Entity::AzureTts => "azure_openai.tts",
            Entity::Stt => "openai.stt",
            Entity::AzureStt => "azure_openai.stt",
        }
    }

    /// The id of the backend.
    pub open spec fn spec_id(self) -> Seq<char> {
        match self {
            Entity::Chat => "dev.mcpg.backend.openai.chat"@,
            Entity::AzureChat => "dev.mcpg.backend.azure_openai.chat"@,
            Entity::Embedding => "dev.mcpg.backend.openai.embedding"@,
            Entity::AzureEmbedding => "dev.mcpg.backend.azure_openai.embedding"@,
            Entity::Image => "dev.mcpg.backend.openai.image"@,
            Entity::AzureImage => "dev.mcpg.backend.azure_openai.image"@,
            Entity::Tts => "dev.mcpg.backend.openai.tts"@,
            Entity::AzureTts => "dev.mcpg.backend.azure_openai.tts"@,
            Entity::Stt => "dev.mcpg.backend.openai.stt"@,
            Entity::AzureStt => "dev.mcpg.backend.azure_openai.stt"@,
        }
    }

    /// The id of the backend.
    pub fn id(self) -> (r: &'static str)
        ensures
            r@ == self.spec_id(),
    {
        match self {
            Entity::Chat => "dev.mcpg.backend.openai.chat",
            Entity::AzureChat => "dev.mcpg.backend.azure_openai.chat",
            Entity::Embedding => "dev.mcpg.backend.openai.embedding",
            Entity::AzureEmbedding => "dev.mcpg.backend.azure_openai.embedding",
            Entity::Image => "dev.mcpg.backend.openai.image",
            Entity::AzureImage => "dev.mcpg.backend.azure_openai.image",
            Entity::Tts => "dev.mcpg.backend.openai.tts",
            Entity::AzureTts => "dev.mcpg.backend.azure_openai.tts",
            Entity::Stt => "dev.mcpg.backend.openai.stt",
            Entity::AzureStt => "dev.mcpg.backend.azure_openai.stt",
        }
    }

    /// The name of the backend, for people.
    pub open spec fn spec_title(self) -> Seq<char> {
        match self {
            Entity::Chat => "OpenAI Chat Completions"@,
            Entity::AzureChat => "Azure OpenAI Chat Completions"@,
            Entity::Embedding => "OpenAI Embeddings"@,
            Entity::AzureEmbedding => "Azure OpenAI Embeddings"@,
            Entity::Image => "OpenAI Image Generation"@,
            Entity::AzureImage => "Azure OpenAI Image Generation"@,
            Entity::Tts => "OpenAI Text-to-Speech"@,
            Entity::AzureTts => "Azure OpenAI Text-to-Speech"@,
            Entity::Stt => "OpenAI Speech-to-Text (Whisper)"@,
            Entity::AzureStt => "Azure OpenAI Speech-to-Text"@,
        }
    }

    /// The name of the backend, for people.
    pub fn title(self) -> (r: &'static str)
        ensures
            r@ == self.spec_title(),
    {
        match self {
            Entity::Chat => "OpenAI Chat Completions",
            Entity::AzureChat => "Azure OpenAI Chat Completions",
            Entity::Embedding => "OpenAI Embeddings",
            Entity::AzureEmbedding => "Azure OpenAI Embeddings",
            Entity::Image => "OpenAI Image Generation",
            Entity::AzureImage => "Azure OpenAI Image Generation",
            Entity::Tts => "OpenAI Text-to-Speech",
            Entity::AzureTts => "Azure OpenAI Text-to-Speech",
            Entity::Stt => "OpenAI Speech-to-Text (Whisper)",
            Entity::AzureStt => "Azure OpenAI Speech-to-Text",
        }
    }

    /// The name of the backend within the plugin.
    pub open spec fn spec_inner_name(self) -> Seq<char> {
        match self {
            Entity::Chat => ""@,
            Entity::AzureChat => "azure-chat"@,
            Entity::Embedding => "embedding"@,
            Entity::AzureEmbedding => "azure-embedding"@,
            Entity::Image => "image"@,
            Entity::AzureImage => "azure-image"@,
            Entity::Tts => "tts"@,
            Entity::AzureTts => "azure-tts"@,
            Entity::Stt => "stt"@,
            Entity::AzureStt => "azure-stt"@,
        }
    }

    /// The name of the backend within the plugin.
    pub fn inner_name(self) -> (r: &'static str)
        ensures
            r@ == self.spec_inner_name(),
    {
        match self {
            Entity::Chat => "",
            Entity::AzureChat => "azure-chat",
            Entity::Embedding => "embedding",
            Entity::AzureEmbedding => "azure-embedding",
            Entity::Image => "image",
            Entity::AzureImage => "azure-image",
            Entity::Tts => "tts",
            Entity::AzureTts => "azure-tts",
            Entity::Stt => "stt",
            Entity::AzureStt => "azure-stt",
        }
    }

    /// The kind by which a binding selects the backend.
    pub open spec fn spec_binding_kind(self) -> Seq<char> {
        match self {
            Entity::Chat => "openai_chat"@,
            Entity::AzureChat => "azure_openai_chat"@,
            Entity::Embedding => "openai_embedding"@,
            Entity::AzureEmbedding => "azure_openai_embedding"@,
            Entity::Image => "openai_image"@,
            Entity::AzureImage => "azure_openai_image"@,
            Entity::Tts => "openai_tts"@,
            Entity::AzureTts => "azure_openai_tts"@,
            Entity::Stt => "openai_stt"@,
            Entity::AzureStt => "azure_openai_stt"@,
        }
    }

    /// The kind by which a binding selects the backend.
    pub fn binding_kind(self) -> (r: &'static str)
        ensures
            r@ == self.spec_binding_kind(),
    {
        match self {
            Entity::Chat => "openai_chat",
            Entity::AzureChat => "azure_openai_chat",
            Entity::Embedding => "openai_embedding",
            Entity::AzureEmbedding => "azure_openai_embedding",
            Entity::Image => "openai_image",
            Entity::AzureImage => "azure_openai_image",
            Entity::Tts => "openai_tts",
            Entity::AzureTts => "azure_openai_tts",
            Entity::Stt => "openai_stt",
            Entity::AzureStt => "azure_openai_stt",
        }
    }

    /// What the adapter of the backend is called in error messages.
    pub open spec fn spec_adapter(self) -> Seq<char> {
        match self {
            Entity::Chat => "openai adapter"@,
            Entity::AzureChat => "azure adapter"@,
            Entity::Embedding => "openai embedding adapter"@,
            Entity::AzureEmbedding => "azure embedding adapter"@,
            Entity::Image => "openai image adapter"@,
            Entity::AzureImage => "azure image adapter"@,
            Entity::Tts => "openai tts adapter"@,
            Entity::AzureTts => "azure tts adapter"@,
            Entity::Stt => "openai stt adapter"@,
            Entity::AzureStt => "azure stt adapter"@,
        }
    }

    /// What the adapter of the backend is called in error messages.
    pub fn adapter(self) -> (r: &'static str)
        ensures
            r@ == self.spec_adapter(),
    {
        match self {
            Entity::Chat => "openai adapter",
            Entity::AzureChat => "azure adapter",
            Entity::Embedding => "openai embedding adapter",
            Entity::AzureEmbedding => "azure embedding adapter",
            Entity::Image => "openai image adapter",
            Entity::AzureImage => "azure image adapter",
            Entity::Tts => "openai tts adapter",
            Entity::AzureTts => "azure tts adapter",
            Entity::Stt => "openai stt adapter",
            Entity::AzureStt => "azure stt adapter",
        }
    }
}

/// What tells the names of the backends apart: the length, the first
/// character, and the last but two.
spec fn mark(s: Seq<char>) -> (nat, char, char) {
    (
        s.len(),
        if s.len() > 0 {
            s[0]
        } else {
            ' '
        },
        if s.len() > 2 {
            s[s.len() - 3]
        } else {
            ' '
        },
    )
}

proof fn lemma_kind_mark(e: Entity)
    ensures
        mark(e.spec_kind()) == match e {
            Entity::Chat => (11nat, 'o', 'h'),
            Entity::AzureChat => (17nat, 'a', 'h'),
            Entity::Embedding => (16nat, 'o', 'i'),
            Entity::AzureEmbedding => (22nat, 'a', 'i'),
            Entity::Image => (12nat, 'o', 'a'),
            Entity::AzureImage => (18nat, 'a', 'a'),
            Entity::Tts => (10nat, 'o', 't'),
            Entity::AzureTts => (16nat, 'a', 't'),
            Entity::Stt => (10nat, 'o', 's'),
            Entity::AzureStt => (16nat, 'a', 's'),
        },
{
    reveal_strlit("openai.chat");
    reveal_strlit("azure_openai.chat");
    reveal_strlit("openai.embedding");
    reveal_strlit("azure_openai.embedding");
    reveal_strlit("openai.image");
    reveal_strlit("azure_openai.image");
    reveal_strlit("openai.tts");
    reveal_strlit("azure_openai.tts");
    reveal_strlit("openai.stt");
    reveal_strlit("azure_openai.stt");
}

proof fn lemma_inner_name_mark(e: Entity)
    ensures
        mark(e.spec_inner_name()) == match e {
            Entity::Chat => (0nat, ' ', ' '),
            Entity::AzureChat => (10nat, 'a', 'h'),
            Entity::Embedding => (9nat, 'e', 'i'),
            Entity::AzureEmbedding => (15nat, 'a', 'i'),
            Entity::Image => (5nat, 'i', 'a'),
            Entity::AzureImage => (11nat, 'a', 'a'),
            Entity::Tts => (3nat, 't', 't'),
            Entity::AzureTts => (9nat, 'a', 't'),
            Entity::Stt => (3nat, 's', 's'),
            Entity::AzureStt => (9nat, 'a', 's'),
        },
{
    reveal_strlit("");
    reveal_strlit("azure-chat");
    reveal_strlit("embedding");
    reveal_strlit("azure-embedding");
    reveal_strlit("image");
    reveal_strlit("azure-image");
    reveal_strlit("tts");
    reveal_strlit("azure-tts");
    reveal_strlit("stt");
    reveal_strlit("azure-stt");
}

/// The id of a backend is its kind behind a common prefix.
pub proof fn law_id_is_built_from_the_kind(e: Entity)
    ensures
        e.spec_id() == "dev.mcpg.backend."@ + e.spec_kind(),
{
    reveal_strlit("dev.mcpg.backend.");
    reveal_strlit("openai.chat");
    reveal_strlit("dev.mcpg.backend.openai.chat");
    reveal_strlit("azure_openai.chat");
    reveal_strlit("dev.mcpg.backend.azure_openai.chat");
    reveal_strlit("openai.embedding");
    reveal_strlit("dev.mcpg.backend.openai.embedding");
    reveal_strlit("azure_openai.embedding");
    reveal_strlit("dev.mcpg.backend.azure_openai.embedding");
    reveal_strlit("openai.image");
    reveal_strlit("dev.mcpg.backend.openai.image");
    reveal_strlit("azure_openai.image");
    reveal_strlit("dev.mcpg.backend.azure_openai.image");
    reveal_strlit("openai.tts");
    reveal_strlit("dev.mcpg.backend.openai.tts");
    reveal_strlit("azure_openai.tts");
    reveal_strlit("dev.mcpg.backend.azure_openai.tts");
    reveal_strlit("openai.stt");
    reveal_strlit("dev.mcpg.backend.openai.stt");
    reveal_strlit("azure_openai.stt");
    reveal_strlit("dev.mcpg.backend.azure_openai.stt");
    assert(e.spec_id() =~= "dev.mcpg.backend."@ + e.spec_kind());
}

/// No two backends have one kind, one id or one name within the plugin, so
/// that the gateway can tell them apart.
pub proof fn law_backends_are_told_apart(a: Entity, b: Entity)
    requires
        a != b,
    ensures
        a.spec_kind() != b.spec_kind(),
        a.spec_id() != b.spec_id(),
        a.spec_inner_name() != b.spec_inner_name(),
{
    lemma_kind_mark(a);
    lemma_kind_mark(b);
    lemma_inner_name_mark(a);
    lemma_inner_name_mark(b);
    law_id_is_built_from_the_kind(a);
    law_id_is_built_from_the_kind(b);
    let prefix = "dev.mcpg.backend."@;
    if a.spec_id() == b.spec_id() {
        assert(a.spec_kind() =~= a.spec_id().skip(prefix.len() as int));
        assert(b.spec_kind() =~= b.spec_id().skip(prefix.len() as int));
    }
}

} // verus!
