//! What is recorded about the generating model and about the prompt.

use vstd::prelude::*;
use crate::assertion::{CustomData, CustomDataView, Parameter, ParameterView};
use crate::clock::Timestamp;
use crate::text::{decimal_digits, decimal_text};

verus! {

/// The versions of the image model that can be named.
#[derive(Clone, Copy, Debug, PartialEq, Eq, Structural)]
pub enum StableDiffusionVersion {
    V1_5,
    V2_1,
    Xl,
    Turbo,
    /// No version applies: the model is not one of this family.
    Unversioned,
}

impl StableDiffusionVersion {
    /// The name under which a version is recorded.
    pub open spec fn recorded_name(self) -> Seq<char> {
        match self {
            StableDiffusionVersion::V1_5 => "V1_5"@,
            StableDiffusionVersion::V2_1 => "V2_1"@,
            StableDiffusionVersion::Xl => "Xl"@,
            StableDiffusionVersion::Turbo => "Turbo"@,
            StableDiffusionVersion::Unversioned => "None"@,
        }
    }

    /// The name under which this version is recorded.
    pub fn name(&self) -> (r: String)
        ensures
            r@ == self.recorded_name(),
    {
        match self {
            StableDiffusionVersion::V1_5 => "V1_5".to_owned(),
            StableDiffusionVersion::V2_1 => "V2_1".to_owned(),
            StableDiffusionVersion::Xl => "Xl".to_owned(),
            StableDiffusionVersion::Turbo => "Turbo".to_owned(),
            StableDiffusionVersion::Unversioned => "None".to_owned(),
        }
    }
}

/// The model that produced or modified an asset.
#[derive(Debug, PartialEq, Eq)]
pub struct ModelData {
    pub model: String,
    pub version: StableDiffusionVersion,
    /// Whole seconds since the epoch at which this record was made, in
    /// decimal.
    pub system_time: String,
}

pub struct ModelDataView {
    pub model: Seq<char>,
    pub version: StableDiffusionVersion,
    pub system_time: Seq<char>,
}

impl ModelDataView {
    /// The model record that is stamped with `instant`: its seconds since
    /// the epoch in decimal. There is none for an instant before the
    /// epoch.
    pub open spec fn stamped(
        model: Seq<char>,
        version: StableDiffusionVersion,
        instant: Timestamp,
    ) -> Option<ModelDataView> {
        if instant.secs < 0 {
            None
        } else {
            Some(
                ModelDataView {
                    model,
                    version,
                    system_time: decimal_digits(instant.secs as nat),
                },
            )
        }
    }

    /// The custom data that carries a model record.
    pub open spec fn custom_data(self) -> CustomDataView {
        CustomDataView {
            label: "edu.upc.fib.C2PA_Prov.model_data"@,
            fields: seq![
                ParameterView { key: "model"@, value: self.model },
                ParameterView { key: "version"@, value: self.version.recorded_name() },
                ParameterView { key: "system_time"@, value: self.system_time },
            ],
        }
    }
}

impl View for ModelData {
    type V = ModelDataView;

    open spec fn view(&self) -> ModelDataView {
        ModelDataView {
            model: self.model@,
            version: self.version,
            system_time: self.system_time@,
        }
    }
}

impl DeepView for ModelData {
    type V = ModelDataView;

    open spec fn deep_view(&self) -> ModelDataView {
        self@
    }
}

impl Clone for ModelData {
    fn clone(&self) -> (r: Self)
        ensures
            r@ == self@,
    {
        ModelData {
            model: self.model.clone(),
            version: self.version,
            system_time: self.system_time.clone(),
        }
    }
}

impl ModelData {
    /// A model record stamped with the given instant. There is none for
    /// an instant before the epoch.
    pub fn at(model: String, version: StableDiffusionVersion, instant: Timestamp) -> (r: Option<
        ModelData,
    >)
        ensures
            r.deep_view() == ModelDataView::stamped(model@, version, instant),
    {
        if instant.secs < 0 {
            return None;
        }
        let secs: u64 = instant.secs as u64;
        Some(ModelData { model, version, system_time: decimal_text(secs) })
    }

    /// A model record stamped with the current time of the system clock:
    /// what `at` gives for the instant that the clock reports, which is
    /// one that can be written down. There is none while that clock
    /// stands before the epoch.
    pub fn new(model: String, version: StableDiffusionVersion) -> (r: Option<ModelData>)
        ensures
            exists|instant: Timestamp|
                instant.representable() && r.deep_view() == #[trigger] ModelDataView::stamped(
                    model@,
                    version,
                    instant,
                ),
    {
        let now = Timestamp::now();
        let r = ModelData::at(model, version, now);
        assert(now.representable() && r.deep_view() == ModelDataView::stamped(
            model@,
            version,
            now,
        ));
        r
    }

    /// The custom data that carries this record.
    pub fn to_custom_data(&self) -> (r: CustomData)
        ensures
            r@ == self@.custom_data(),
    {
        let mut fields: Vec<Parameter> = Vec::new();
        fields.push(Parameter::new("model", self.model.as_str()));
        fields.push(Parameter::new("version", self.version.name().as_str()));
        fields.push(Parameter::new("system_time", self.system_time.as_str()));
        let r = CustomData { label: "edu.upc.fib.C2PA_Prov.model_data".to_owned(), fields };
        assert(r@.fields =~= self@.custom_data().fields);
        r
    }
}

/// The prompt that an asset was generated from, and who asked for it.
#[derive(Debug, PartialEq, Eq)]
pub struct PromptData {
    pub prompt: String,
    pub negative_prompt: String,
    pub author: String,
}

pub struct PromptDataView {
    pub prompt: Seq<char>,
    pub negative_prompt: Seq<char>,
    pub author: Seq<char>,
}

impl PromptDataView {
    /// The custom data that carries a prompt record.
    pub open spec fn custom_data(self) -> CustomDataView {
        CustomDataView {
            label: "edu.upc.fib.C2PA_Prov.prompt_data"@,
            fields: seq![
                ParameterView { key: "prompt"@, value: self.prompt },
                ParameterView { key: "negative_prompt"@, value: self.negative_prompt },
                ParameterView { key: "author"@, value: self.author },
            ],
        }
    }
}

impl View for PromptData {
    type V = PromptDataView;

    open spec fn view(&self) -> PromptDataView {
        PromptDataView {
            prompt: self.prompt@,
            negative_prompt: self.negative_prompt@,
            author: self.author@,
        }
    }
}

impl DeepView for PromptData {
    type V = PromptDataView;

    open spec fn deep_view(&self) -> PromptDataView {
        self@
    }
}

impl Clone for PromptData {
    fn clone(&self) -> (r: Self)
        ensures
            r@ == self@,
    {
        PromptData {
            prompt: self.prompt.clone(),
            negative_prompt: self.negative_prompt.clone(),
            author: self.author.clone(),
        }
    }
}

impl PromptData {
    pub fn new(prompt: String, negative_prompt: String, author: String) -> (r: PromptData)
        ensures
            r@ == (PromptDataView {
                prompt: prompt@,
                negative_prompt: negative_prompt@,
                author: author@,
            }),
    {
        PromptData { prompt, negative_prompt, author }
    }

    /// The custom data that carries this record.
    pub fn to_custom_data(&self) -> (r: CustomData)
        ensures
            r@ == self@.custom_data(),
    {
        let mut fields: Vec<Parameter> = Vec::new();
        fields.push(Parameter::new("prompt", self.prompt.as_str()));
        fields.push(Parameter::new("negative_prompt", self.negative_prompt.as_str()));
        fields.push(Parameter::new("author", self.author.as_str()));
        let r = CustomData { label: "edu.upc.fib.C2PA_Prov.prompt_data".to_owned(), fields };
        assert(r@.fields =~= self@.custom_data().fields);
        r
    }
}

} // verus!
