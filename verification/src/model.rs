//! Where the language model lies on disk and how its weights are stored.

use crate::text::{owned, str_equal};
use vstd::prelude::*;

verus! {

/// How the weights of the model are quantized.
#[derive(Debug, Clone, Copy, PartialEq, Eq, Structural)]
pub enum QuantizationMode {
    /// Full precision.
    Unquantized,
    /// Eight bits for each weight.
    Q8,
    /// Four bits for each weight.
    Q4,
}

/// The paths and the quantization that a loader needs.
#[derive(Debug, Clone)]
pub struct ModelPaths {
    pub model_path: String,
    pub tokenizer_path: String,
    pub quantization: QuantizationMode,
}

/// The quantization that a setting names: `none` and `fp16` stand for full
/// precision, `q8` for eight bits, and anything else, or no setting, for four
/// bits.
pub open spec fn quantization_named(setting: Option<Seq<char>>) -> QuantizationMode {
    match setting {
        Some(name) => if name == "none"@ || name == "fp16"@ {
            QuantizationMode::Unquantized
        } else if name == "q8"@ {
            QuantizationMode::Q8
        } else {
            QuantizationMode::Q4
        },
        None => QuantizationMode::Q4,
    }
}

impl ModelPaths {
    /// The paths and the quantization for a card with eight gigabytes of
    /// memory.
    pub fn new_default() -> (p: Self)
        ensures
            p.model_path@ == "/models/mistral-7b/model.safetensors"@,
            p.tokenizer_path@ == "/models/mistral-7b/tokenizer.json"@,
            p.quantization == QuantizationMode::Q4,
    {
        ModelPaths {
            model_path: owned("/models/mistral-7b/model.safetensors"),
            tokenizer_path: owned("/models/mistral-7b/tokenizer.json"),
            quantization: QuantizationMode::Q4,
        }
    }

    /// The paths and the quantization that three settings give, each with its
    /// default where it is not set.
    pub fn from_settings(
        model_path: Option<String>,
        tokenizer_path: Option<String>,
        quantization: Option<&str>,
    ) -> (p: Self)
        ensures
            p.model_path@ == match model_path {
                Some(path) => path@,
                None => "/models/mistral-7b/model.safetensors"@,
            },
            p.tokenizer_path@ == match tokenizer_path {
                Some(path) => path@,
                None => "/models/mistral-7b/tokenizer.json"@,
            },
            p.quantization == quantization_named(
                match quantization {
                    Some(name) => Some(name@),
                    None => None,
                },
            ),
    {
        let model_path = match model_path {
            Some(path) => path,
            None => owned("/models/mistral-7b/model.safetensors"),
        };
        let tokenizer_path = match tokenizer_path {
            Some(path) => path,
            None => owned("/models/mistral-7b/tokenizer.json"),
        };
        let quantization = match quantization {
            Some(name) => if str_equal(name, "none") || str_equal(name, "fp16") {
                QuantizationMode::Unquantized
            } else if str_equal(name, "q8") {
                QuantizationMode::Q8
            } else {
                QuantizationMode::Q4
            },
            None => QuantizationMode::Q4,
        };
        ModelPaths { model_path, tokenizer_path, quantization }
    }
}

/// Number of parameters of the model.
pub const PARAMETERS: u64 = 7_000_000_000;

/// Bytes that one parameter takes: two in half precision, which is used on
/// the processor and wherever the setting names nothing else, and one on a
/// graphics card where the setting names `q4` or `q8`.
pub open spec fn bytes_per_parameter(on_graphics_card: bool, setting: Option<Seq<char>>) -> u64 {
    if on_graphics_card && setting is Some && (setting->0 == "q4"@ || setting->0 == "q8"@) {
        1
    } else {
        2
    }
}

/// A rough estimate of the memory that the model takes, in bytes.
pub fn estimate_memory_usage(on_graphics_card: bool, setting: Option<&str>) -> (bytes: u64)
    ensures
        bytes == PARAMETERS * bytes_per_parameter(
            on_graphics_card,
            match setting {
                Some(name) => Some(name@),
                None => None,
            },
        ),
{
    let quantized = match setting {
        Some(name) => str_equal(name, "q4") || str_equal(name, "q8"),
        None => false,
    };
    if on_graphics_card && quantized {
        PARAMETERS
    } else {
        PARAMETERS * 2
    }
}

/// What a builder lacks.
#[derive(Debug, Clone, Copy, PartialEq, Eq, Structural)]
pub enum BuildError {
    MissingModelPath,
    MissingTokenizerPath,
}

impl BuildError {
    /// The text shown for what is missing.
    pub open spec fn text(self) -> Seq<char> {
        match self {
            BuildError::MissingModelPath => "Model path not specified"@,
            BuildError::MissingTokenizerPath => "Tokenizer path not specified"@,
        }
    }

    /// The text shown for what is missing.
    pub fn to_string(&self) -> (r: String)
        ensures
            r@ == self.text(),
    {
        match self {
            BuildError::MissingModelPath => owned("Model path not specified"),
            BuildError::MissingTokenizerPath => owned("Tokenizer path not specified"),
        }
    }
}

/// Collects the paths and the quantization step by step.
#[derive(Debug, Clone)]
pub struct ModelBuilder {
    pub model_path: Option<String>,
    pub tokenizer_path: Option<String>,
    pub quantization: QuantizationMode,
}

impl ModelBuilder {
    /// A builder without paths, for four-bit weights.
    pub fn new() -> (b: Self)
        ensures
            b.model_path is None,
            b.tokenizer_path is None,
            b.quantization == QuantizationMode::Q4,
    {
        ModelBuilder { model_path: None, tokenizer_path: None, quantization: QuantizationMode::Q4 }
    }

    /// Sets the path of the weights.
    pub fn model_path(self, path: &str) -> (b: Self)
        ensures
            b.model_path matches Some(p) && p@ == path@,
            b.tokenizer_path == self.tokenizer_path,
            b.quantization == self.quantization,
    {
        ModelBuilder {
            model_path: Some(owned(path)),
            tokenizer_path: self.tokenizer_path,
            quantization: self.quantization,
        }
    }

    /// Sets the path of the tokenizer.
    pub fn tokenizer_path(self, path: &str) -> (b: Self)
        ensures
            b.tokenizer_path matches Some(p) && p@ == path@,
            b.model_path == self.model_path,
            b.quantization == self.quantization,
    {
        ModelBuilder {
            model_path: self.model_path,
            tokenizer_path: Some(owned(path)),
            quantization: self.quantization,
        }
    }

    /// Sets the quantization.
    pub fn quantization(self, quant: QuantizationMode) -> (b: Self)
        ensures
            b.quantization == quant,
            b.model_path == self.model_path,
            b.tokenizer_path == self.tokenizer_path,
    {
        ModelBuilder {
            model_path: self.model_path,
            tokenizer_path: self.tokenizer_path,
            quantization: quant,
        }
    }

    /// The collected paths, once both are set. A missing model path is
    /// reported before a missing tokenizer path.
    pub fn build(self) -> (r: Result<ModelPaths, BuildError>)
        ensures
            match r {
                Ok(paths) => self.model_path == Some(paths.model_path) && self.tokenizer_path
                    == Some(paths.tokenizer_path) && paths.quantization == self.quantization,
                Err(BuildError::MissingModelPath) => self.model_path is None,
                Err(BuildError::MissingTokenizerPath) => self.model_path is Some
                    && self.tokenizer_path is None,
            },
    {
        let model_path = match self.model_path {
            Some(p) => p,
            None => {
                return Err(BuildError::MissingModelPath);
            },
        };
        let tokenizer_path = match self.tokenizer_path {
            Some(p) => p,
            None => {
                return Err(BuildError::MissingTokenizerPath);
            },
        };
        Ok(ModelPaths { model_path, tokenizer_path, quantization: self.quantization })
    }
}

impl Default for ModelBuilder {
    fn default() -> (b: Self)
        ensures
            b.model_path is None,
            b.tokenizer_path is None,
            b.quantization == QuantizationMode::Q4,
    {
        Self::new()
    }
}

} // verus!
