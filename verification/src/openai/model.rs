//! The OpenAI model identifiers and the per-model capability table that
//! request sanitisation consults: whether a model accepts a sampling
//! temperature, supports reasoning effort, and supports prompt caching.

use vstd::prelude::*;

use crate::error::{AiError, AiResult};
use crate::utils::str_eq;

verus! {

/// A known OpenAI model.
#[derive(Debug, Clone, Copy, PartialEq, Eq, Hash, Structural)]
pub enum OpenAIModel {
    Gpt4oMini,
    Gpt4o,
    Gpt4_1,
    Gpt4_1Mini,
    Gpt4_1Nano,
    Gpt5_1,
    Gpt5,
    Gpt5Mini,
    Gpt5Nano,
}

/// The capability record of one model: what request sanitisation needs
/// to know, in one place instead of scattered conditionals.
#[derive(Debug, Clone, Copy, PartialEq, Eq, Structural)]
pub struct ModelCapabilities {
    pub allow_temperature: bool,
    pub supports_reasoning: bool,
    pub supports_caching: bool,
}

/// Whether the model accepts a sampling temperature.
pub open spec fn allow_temperature_spec(m: OpenAIModel) -> bool {
    match m {
        OpenAIModel::Gpt4oMini => true,
        OpenAIModel::Gpt4o => true,
        OpenAIModel::Gpt4_1 => true,
        OpenAIModel::Gpt4_1Mini => true,
        OpenAIModel::Gpt4_1Nano => true,
        OpenAIModel::Gpt5_1 => false,
        OpenAIModel::Gpt5 => false,
        OpenAIModel::Gpt5Mini => false,
        OpenAIModel::Gpt5Nano => false,
    }
}

/// Whether the model accepts a reasoning-effort setting.
pub open spec fn supports_reasoning_spec(m: OpenAIModel) -> bool {
    match m {
        OpenAIModel::Gpt4oMini => false,
        OpenAIModel::Gpt4o => false,
        OpenAIModel::Gpt4_1 => true,
        OpenAIModel::Gpt4_1Mini => false,
        OpenAIModel::Gpt4_1Nano => false,
        OpenAIModel::Gpt5_1 => true,
        OpenAIModel::Gpt5 => true,
        OpenAIModel::Gpt5Mini => false,
        OpenAIModel::Gpt5Nano => false,
    }
}

/// Whether the model supports prompt caching.
pub open spec fn supports_caching_spec(m: OpenAIModel) -> bool {
    match m {
        OpenAIModel::Gpt4oMini => false,
        OpenAIModel::Gpt4o => false,
        OpenAIModel::Gpt4_1 => true,
        OpenAIModel::Gpt4_1Mini => false,
        OpenAIModel::Gpt4_1Nano => false,
        OpenAIModel::Gpt5_1 => true,
        OpenAIModel::Gpt5 => true,
        OpenAIModel::Gpt5Mini => false,
        OpenAIModel::Gpt5Nano => false,
    }
}

impl OpenAIModel {
    /// The model's wire name.
    pub open spec fn name_spec(self) -> Seq<char> {
        match self {
            OpenAIModel::Gpt4oMini => "gpt-4o-mini"@,
            OpenAIModel::Gpt4o => "gpt-4o"@,
            OpenAIModel::Gpt4_1 => "gpt-4.1"@,
            OpenAIModel::Gpt4_1Mini => "gpt-4.1-mini"@,
            OpenAIModel::Gpt4_1Nano => "gpt-4.1-nano"@,
            OpenAIModel::Gpt5_1 => "gpt-5.1"@,
            OpenAIModel::Gpt5 => "gpt-5"@,
            OpenAIModel::Gpt5Mini => "gpt-5-mini"@,
            OpenAIModel::Gpt5Nano => "gpt-5-nano"@,
        }
    }

    /// The model parsed from an accepted name, bare or prefixed with
    /// `models/`. The 4-series mini and nano models are accepted only
    /// under their dashed spellings (`gpt-4-1-mini`, `gpt-4-1-nano`);
    /// their dotted wire names are deliberately not parsed back.
    pub open spec fn parse_spec(s: Seq<char>) -> Option<OpenAIModel> {
        if s == "gpt-4o-mini"@ || s == "models/gpt-4o-mini"@ {
            Some(OpenAIModel::Gpt4oMini)
        } else if s == "gpt-4o"@ || s == "models/gpt-4o"@ {
            Some(OpenAIModel::Gpt4o)
        } else if s == "gpt-4-1-mini"@ || s == "models/gpt-4-1-mini"@ {
            Some(OpenAIModel::Gpt4_1Mini)
        } else if s == "gpt-4-1-nano"@ || s == "models/gpt-4-1-nano"@ {
            Some(OpenAIModel::Gpt4_1Nano)
        } else if s == "gpt-4.1"@ || s == "models/gpt-4.1"@ {
            Some(OpenAIModel::Gpt4_1)
        } else if s == "gpt-5.1"@ || s == "models/gpt-5.1"@ {
            Some(OpenAIModel::Gpt5_1)
        } else if s == "gpt-5"@ || s == "models/gpt-5"@ {
            Some(OpenAIModel::Gpt5)
        } else if s == "gpt-5-mini"@ || s == "models/gpt-5-mini"@ {
            Some(OpenAIModel::Gpt5Mini)
        } else if s == "gpt-5-nano"@ || s == "models/gpt-5-nano"@ {
            Some(OpenAIModel::Gpt5Nano)
        } else {
            None
        }
    }

    /// The model's wire name.
    pub fn name(&self) -> (r: String)
        ensures
            r@ == self.name_spec(),
    {
        match self {
            OpenAIModel::Gpt4oMini => "gpt-4o-mini".to_owned(),
            OpenAIModel::Gpt4o => "gpt-4o".to_owned(),
            OpenAIModel::Gpt4_1 => "gpt-4.1".to_owned(),
            OpenAIModel::Gpt4_1Mini => "gpt-4.1-mini".to_owned(),
            OpenAIModel::Gpt4_1Nano => "gpt-4.1-nano".to_owned(),
            OpenAIModel::Gpt5_1 => "gpt-5.1".to_owned(),
            OpenAIModel::Gpt5 => "gpt-5".to_owned(),
            OpenAIModel::Gpt5Mini => "gpt-5-mini".to_owned(),
            OpenAIModel::Gpt5Nano => "gpt-5-nano".to_owned(),
        }
    }

    /// Parses an accepted model name; any other text is an
    /// `InvalidModel` error.
    pub fn from_name(s: &str) -> (r: AiResult<OpenAIModel>)
        ensures
            match r {
                Ok(m) => OpenAIModel::parse_spec(s@) == Some(m),
                Err(e) => OpenAIModel::parse_spec(s@) is None && e is InvalidModel,
            },
    {
        if str_eq(s, "gpt-4o-mini") || str_eq(s, "models/gpt-4o-mini") {
            Ok(OpenAIModel::Gpt4oMini)
        } else if str_eq(s, "gpt-4o") || str_eq(s, "models/gpt-4o") {
            Ok(OpenAIModel::Gpt4o)
        } else if str_eq(s, "gpt-4-1-mini") || str_eq(s, "models/gpt-4-1-mini") {
            Ok(OpenAIModel::Gpt4_1Mini)
        } else if str_eq(s, "gpt-4-1-nano") || str_eq(s, "models/gpt-4-1-nano") {
            Ok(OpenAIModel::Gpt4_1Nano)
        } else if str_eq(s, "gpt-4.1") || str_eq(s, "models/gpt-4.1") {
            Ok(OpenAIModel::Gpt4_1)
        } else if str_eq(s, "gpt-5.1") || str_eq(s, "models/gpt-5.1") {
            Ok(OpenAIModel::Gpt5_1)
        } else if str_eq(s, "gpt-5") || str_eq(s, "models/gpt-5") {
            Ok(OpenAIModel::Gpt5)
        } else if str_eq(s, "gpt-5-mini") || str_eq(s, "models/gpt-5-mini") {
            Ok(OpenAIModel::Gpt5Mini)
        } else if str_eq(s, "gpt-5-nano") || str_eq(s, "models/gpt-5-nano") {
            Ok(OpenAIModel::Gpt5Nano)
        } else {
            Err(AiError::InvalidModel)
        }
    }

    /// Whether the model accepts a sampling temperature.
    pub fn allow_temperature(&self) -> (r: bool)
        ensures
            r == allow_temperature_spec(*self),
    {
        match self {
            OpenAIModel::Gpt4oMini => true,
            OpenAIModel::Gpt4o => true,
            OpenAIModel::Gpt4_1 => true,
            OpenAIModel::Gpt4_1Mini => true,
            OpenAIModel::Gpt4_1Nano => true,
            OpenAIModel::Gpt5_1 => false,
            OpenAIModel::Gpt5 => false,
            OpenAIModel::Gpt5Mini => false,
            OpenAIModel::Gpt5Nano => false,
        }
    }

    /// Whether the model accepts a reasoning-effort setting.
    pub fn supports_reasoning(&self) -> (r: bool)
        ensures
            r == supports_reasoning_spec(*self),
    {
        match self {
            OpenAIModel::Gpt4oMini => false,
            OpenAIModel::Gpt4o => false,
            OpenAIModel::Gpt4_1 => true,
            OpenAIModel::Gpt4_1Mini => false,
            OpenAIModel::Gpt4_1Nano => false,
            OpenAIModel::Gpt5_1 => true,
            OpenAIModel::Gpt5 => true,
            OpenAIModel::Gpt5Mini => false,
            OpenAIModel::Gpt5Nano => false,
        }
    }

    /// Whether the model supports prompt caching.
    pub fn supports_caching(&self) -> (r: bool)
        ensures
            r == supports_caching_spec(*self),
    {
        match self {
            OpenAIModel::Gpt4oMini => false,
            OpenAIModel::Gpt4o => false,
            OpenAIModel::Gpt4_1 => true,
            OpenAIModel::Gpt4_1Mini => false,
            OpenAIModel::Gpt4_1Nano => false,
            OpenAIModel::Gpt5_1 => true,
            OpenAIModel::Gpt5 => true,
            OpenAIModel::Gpt5Mini => false,
            OpenAIModel::Gpt5Nano => false,
        }
    }

    /// The model's whole capability record.
    pub fn capabilities(&self) -> (r: ModelCapabilities)
        ensures
            r.allow_temperature == allow_temperature_spec(*self),
            r.supports_reasoning == supports_reasoning_spec(*self),
            r.supports_caching == supports_caching_spec(*self),
    {
        ModelCapabilities {
            allow_temperature: self.allow_temperature(),
            supports_reasoning: self.supports_reasoning(),
            supports_caching: self.supports_caching(),
        }
    }
}

impl Default for OpenAIModel {
    /// The default model.
    fn default() -> (r: Self)
        ensures
            r == OpenAIModel::Gpt4oMini,
    {
        OpenAIModel::Gpt4oMini
    }
}

} // verus!
