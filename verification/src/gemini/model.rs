//! The Gemini model identifiers and the generation methods a model can
//! support. The wire spelling of a model is `models/<name>`; both the
//! bare and the prefixed spelling are accepted when parsing.

use vstd::prelude::*;
use vstd::string::StringExecFns;

use crate::error::{AiError, AiResult};
use crate::utils::str_eq;

verus! {

/// A known Gemini model.
#[derive(Debug, Clone, Copy, PartialEq, Eq, Hash, Structural)]
pub enum Model {
    Gemini1_0Pro,
    Gemini1_0ProLatest,
    Gemini1_0ProVisionLatest,
    Gemini1_5Pro,
    Gemini1_5Flash,
}

impl Model {
    /// The model's bare wire name.
    pub open spec fn name_spec(self) -> Seq<char> {
        match self {
            Model::Gemini1_0Pro => "gemini-1.0-pro"@,
            Model::Gemini1_0ProLatest => "gemini-1.0-pro-latest"@,
            Model::Gemini1_0ProVisionLatest => "gemini-1.0-pro-vision-latest"@,
            Model::Gemini1_5Pro => "gemini-1.5-pro"@,
            Model::Gemini1_5Flash => "gemini-1.5-flash"@,
        }
    }

    /// The model parsed from a bare or `models/`-prefixed name.
    pub open spec fn parse_spec(s: Seq<char>) -> Option<Model> {
        if s == "gemini-1.0-pro"@ || s == "models/gemini-1.0-pro"@ {
            Some(Model::Gemini1_0Pro)
        } else if s == "gemini-1.0-pro-latest"@ || s == "models/gemini-1.0-pro-latest"@ {
            Some(Model::Gemini1_0ProLatest)
        } else if s == "gemini-1.0-pro-vision-latest"@ || s
            == "models/gemini-1.0-pro-vision-latest"@ {
            Some(Model::Gemini1_0ProVisionLatest)
        } else if s == "gemini-1.5-pro"@ || s == "models/gemini-1.5-pro"@ {
            Some(Model::Gemini1_5Pro)
        } else if s == "gemini-1.5-flash"@ || s == "models/gemini-1.5-flash"@ {
            Some(Model::Gemini1_5Flash)
        } else {
            None
        }
    }

    /// The model's bare wire name.
    pub fn name(&self) -> (r: String)
        ensures
            r@ == self.name_spec(),
    {
        match self {
            Model::Gemini1_0Pro => "gemini-1.0-pro".to_owned(),
            Model::Gemini1_0ProLatest => "gemini-1.0-pro-latest".to_owned(),
            Model::Gemini1_0ProVisionLatest => "gemini-1.0-pro-vision-latest".to_owned(),
            Model::Gemini1_5Pro => "gemini-1.5-pro".to_owned(),
            Model::Gemini1_5Flash => "gemini-1.5-flash".to_owned(),
        }
    }

    /// The model's full resource path, `models/<name>`: the spelling
    /// requests carry.
    pub fn path(&self) -> (r: String)
        ensures
            r@ == "models/"@ + self.name_spec(),
    {
        let mut s = "models/".to_owned();
        let n = self.name();
        s.append(n.as_str());
        s
    }

    /// Parses a bare or `models/`-prefixed model name; any other text is
    /// an `InvalidModel` error.
    pub fn from_name(s: &str) -> (r: AiResult<Model>)
        ensures
            match r {
                Ok(m) => Model::parse_spec(s@) == Some(m),
                Err(e) => Model::parse_spec(s@) is None && e is InvalidModel,
            },
    {
        if str_eq(s, "gemini-1.0-pro") || str_eq(s, "models/gemini-1.0-pro") {
            Ok(Model::Gemini1_0Pro)
        } else if str_eq(s, "gemini-1.0-pro-latest") || str_eq(s, "models/gemini-1.0-pro-latest") {
            Ok(Model::Gemini1_0ProLatest)
        } else if str_eq(s, "gemini-1.0-pro-vision-latest") || str_eq(
            s,
            "models/gemini-1.0-pro-vision-latest",
        ) {
            Ok(Model::Gemini1_0ProVisionLatest)
        } else if str_eq(s, "gemini-1.5-pro") || str_eq(s, "models/gemini-1.5-pro") {
            Ok(Model::Gemini1_5Pro)
        } else if str_eq(s, "gemini-1.5-flash") || str_eq(s, "models/gemini-1.5-flash") {
            Ok(Model::Gemini1_5Flash)
        } else {
            Err(AiError::InvalidModel)
        }
    }
}

impl Default for Model {
    /// The default model.
    fn default() -> (r: Self)
        ensures
            r == Model::Gemini1_5Flash,
    {
        Model::Gemini1_5Flash
    }
}

/// A generation method a model can support.
#[derive(Debug, Clone, Copy, PartialEq, Eq, Hash, Structural)]
pub enum GenerationMethod {
    GenerateContent,
    CountTokens,
    CreateCachedContent,
    CreateTunedModel,
    EmbedContent,
}

impl GenerationMethod {
    /// The method's wire name.
    pub open spec fn name_spec(self) -> Seq<char> {
        match self {
            GenerationMethod::GenerateContent => "generateContent"@,
            GenerationMethod::CountTokens => "countTokens"@,
            GenerationMethod::CreateCachedContent => "createCachedContent"@,
            GenerationMethod::CreateTunedModel => "createTunedModel"@,
            GenerationMethod::EmbedContent => "embedContent"@,
        }
    }

    /// The method's wire name.
    pub fn name(&self) -> (r: String)
        ensures
            r@ == self.name_spec(),
    {
        match self {
            GenerationMethod::GenerateContent => "generateContent".to_owned(),
            GenerationMethod::CountTokens => "countTokens".to_owned(),
            GenerationMethod::CreateCachedContent => "createCachedContent".to_owned(),
            GenerationMethod::CreateTunedModel => "createTunedModel".to_owned(),
            GenerationMethod::EmbedContent => "embedContent".to_owned(),
        }
    }
}

} // verus!
