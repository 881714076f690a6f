//! What one invocation of the tool comes to: which operations are run,
//! on which paths, and under whose name.

use vstd::prelude::*;
use crate::error::EngineError;
use crate::metadata::StableDiffusionVersion;
use crate::naming::{derive_dest_path, derived_dest};
use crate::text::same_text;

verus! {

/// What was asked for on one invocation.
#[derive(Debug, PartialEq, Eq)]
pub struct Invocation {
    /// Generate a new image and give it a manifest.
    pub create: bool,
    /// Generate an edited image and give it a manifest.
    pub edit: bool,
    /// An asset whose manifest store is to be read.
    pub read: Option<String>,
    /// An existing asset that is to be given a manifest.
    pub add: Option<String>,
    /// An existing asset with a manifest that is to be given one more.
    pub edit_manifest: Option<String>,
    /// Where a generated or edited image goes.
    pub final_image: Option<String>,
    /// The image that an edit starts from.
    pub img2img: Option<String>,
    /// The name of the model.
    pub model: String,
}

pub struct InvocationView {
    pub create: bool,
    pub edit: bool,
    pub read: Option<Seq<char>>,
    pub add: Option<Seq<char>>,
    pub edit_manifest: Option<Seq<char>>,
    pub final_image: Option<Seq<char>>,
    pub img2img: Option<Seq<char>>,
    pub model: Seq<char>,
}

impl View for Invocation {
    type V = InvocationView;

    open spec fn view(&self) -> InvocationView {
        InvocationView {
            create: self.create,
            edit: self.edit,
            read: self.read.deep_view(),
            add: self.add.deep_view(),
            edit_manifest: self.edit_manifest.deep_view(),
            final_image: self.final_image.deep_view(),
            img2img: self.img2img.deep_view(),
            model: self.model@,
        }
    }
}

impl InvocationView {
    /// The asset that is to be given the manifest of a creation.
    pub open spec fn add_path(self) -> Option<Seq<char>> {
        if self.create {
            self.final_image
        } else {
            self.add
        }
    }

    /// The asset that an edit starts from.
    pub open spec fn source_path(self) -> Option<Seq<char>> {
        if self.edit {
            self.img2img
        } else {
            self.edit_manifest
        }
    }

    /// The asset that is to be given the manifest of an edit.
    pub open spec fn edit_path(self) -> Option<Seq<char>> {
        if self.edit || self.edit_manifest is Some {
            self.final_image
        } else {
            None
        }
    }

    /// Whether the model named is the one the engine works with.
    pub open spec fn model_supported(self) -> bool {
        self.model == "Stable Diffusion"@
    }
}

/// One operation of a plan. An edit is always recorded as of kind
/// `Edited`.
#[derive(Debug, PartialEq, Eq)]
pub enum Operation {
    /// Run the image generator.
    Generate,
    /// Give `source` the manifest of its creation, embedded in `dest`.
    Create { source: String, dest: String },
    /// Give `source` the manifest of an edit, embedded in `dest`.
    Edit { source: String, dest: String },
    /// Read the manifest store of `path` and report it.
    Read { path: String },
}

pub enum OperationView {
    Generate,
    Create { source: Seq<char>, dest: Seq<char> },
    Edit { source: Seq<char>, dest: Seq<char> },
    Read { path: Seq<char> },
}

impl View for Operation {
    type V = OperationView;

    open spec fn view(&self) -> OperationView {
        match self {
            Operation::Generate => OperationView::Generate,
            Operation::Create { source, dest } => OperationView::Create {
                source: source@,
                dest: dest@,
            },
            Operation::Edit { source, dest } => OperationView::Edit { source: source@, dest: dest@ },
            Operation::Read { path } => OperationView::Read { path: path@ },
        }
    }
}

impl DeepView for Operation {
    type V = OperationView;

    open spec fn deep_view(&self) -> OperationView {
        self@
    }
}

/// The operations that generate images: one for a creation, one for an
/// edit.
pub open spec fn generation_steps(inv: InvocationView) -> Seq<OperationView> {
    (if inv.create {
        seq![OperationView::Generate]
    } else {
        Seq::empty()
    }) + (if inv.edit {
        seq![OperationView::Generate]
    } else {
        Seq::empty()
    })
}

/// The operations on the asset that is given the manifest of a creation:
/// create into the derived destination, then read it back.
pub open spec fn creation_steps(file: Seq<char>, dest: Seq<char>) -> Seq<OperationView> {
    seq![
        OperationView::Create { source: file, dest },
        OperationView::Read { path: dest },
    ]
}

/// The operations of an edit: edit into the destination, then read it
/// back.
pub open spec fn edit_steps(inv: InvocationView) -> Seq<OperationView> {
    match inv.edit_path() {
        Some(dest) => seq![
            OperationView::Edit { source: inv.source_path().unwrap_or(Seq::empty()), dest },
            OperationView::Read { path: dest },
        ],
        None => Seq::empty(),
    }
}

/// The operation that reads the asset named for reading.
pub open spec fn read_steps(inv: InvocationView) -> Seq<OperationView> {
    match inv.read {
        Some(path) => seq![OperationView::Read { path }],
        None => Seq::empty(),
    }
}

/// The plan of an invocation. An edit without an image to start from is
/// refused; so is generating or editing with a model that is not
/// supported, and a creation on a file whose name has no extension. Else:
/// the generator runs first; an asset to create for is created and read
/// back; an asset to edit is edited and read back; an asset named for
/// reading is read last.
pub open spec fn plan_of(inv: InvocationView) -> Result<Seq<OperationView>, EngineError> {
    if inv.edit && inv.img2img is None {
        Err(EngineError::EmptyField)
    } else if !inv.model_supported() && (inv.create || inv.edit) {
        Err(EngineError::UnsupportedModel)
    } else {
        match inv.add_path() {
            Some(file) => match derived_dest(file) {
                Err(e) => Err(e),
                Ok(dest) => Ok(
                    generation_steps(inv) + creation_steps(file, dest) + edit_steps(inv)
                        + read_steps(inv),
                ),
            },
            None => Ok(generation_steps(inv) + edit_steps(inv) + read_steps(inv)),
        }
    }
}

fn clone_text(text: &Option<String>) -> (r: Option<String>)
    ensures
        r.deep_view() == text.deep_view(),
{
    match text {
        Some(t) => Some(t.clone()),
        None => None,
    }
}

impl Invocation {
    /// Whether the model named is the one the engine works with.
    pub fn model_supported(&self) -> (r: bool)
        ensures
            r == self@.model_supported(),
    {
        same_text(self.model.as_str(), "Stable Diffusion")
    }

    /// The version that is recorded for the model: the one given for a
    /// supported model, none for any other.
    pub fn effective_version(&self, version: StableDiffusionVersion) -> (r: StableDiffusionVersion)
        ensures
            r == if self@.model_supported() {
                version
            } else {
                StableDiffusionVersion::Unversioned
            },
    {
        if self.model_supported() {
            version
        } else {
            StableDiffusionVersion::Unversioned
        }
    }

    /// Plans the operations of this invocation.
    pub fn plan(&self) -> (r: Result<Vec<Operation>, EngineError>)
        ensures
            match plan_of(self@) {
                Ok(steps) => r is Ok && r->Ok_0.deep_view() == steps,
                Err(e) => r is Err && r->Err_0 == e,
            },
    {
        if self.edit && self.img2img.is_none() {
            return Err(EngineError::EmptyField);
        }
        if !self.model_supported() && (self.create || self.edit) {
            return Err(EngineError::UnsupportedModel);
        }
        let mut steps: Vec<Operation> = Vec::new();
        if self.create {
            steps.push(Operation::Generate);
        }
        if self.edit {
            steps.push(Operation::Generate);
        }
        assert(steps.deep_view() =~= generation_steps(self@));
        let add_path = if self.create {
            clone_text(&self.final_image)
        } else {
            clone_text(&self.add)
        };
        match add_path {
            Some(file) => {
                let dest = match derive_dest_path(file.as_str()) {
                    Ok(dest) => dest,
                    Err(e) => {
                        return Err(e);
                    },
                };
                let read_back = dest.clone();
                steps.push(Operation::Create { source: file, dest });
                steps.push(Operation::Read { path: read_back });
                assert(steps.deep_view() =~= generation_steps(self@) + creation_steps(
                    file@,
                    dest@,
                ));
            },
            None => {},
        }
        let ghost so_far = steps.deep_view();
        let source = if self.edit {
            clone_text(&self.img2img)
        } else {
            clone_text(&self.edit_manifest)
        };
        let edit_path = if self.edit || self.edit_manifest.is_some() {
            clone_text(&self.final_image)
        } else {
            None
        };
        match edit_path {
            Some(dest) => {
                let source = match source {
                    Some(path) => path,
                    None => String::new(),
                };
                let read_back = dest.clone();
                steps.push(Operation::Edit { source, dest });
                steps.push(Operation::Read { path: read_back });
            },
            None => {},
        }
        assert(steps.deep_view() =~= so_far + edit_steps(self@));
        let ghost so_far = steps.deep_view();
        match &self.read {
            Some(path) => {
                steps.push(Operation::Read { path: path.clone() });
            },
            None => {},
        }
        assert(steps.deep_view() =~= so_far + read_steps(self@));
        Ok(steps)
    }
}

/// Asks the system for its host name with `sysinfo::System::host_name`.
/// The answer depends on the machine, and there may be none: nothing is
/// claimed about it.
#[verifier::external_body]
fn system_host_name() -> (r: Option<String>)
{
    sysinfo::System::host_name()
}

/// The name under which an asset is authored: the author given, or the
/// host where none is given. Without either there is no name.
pub open spec fn author_of(author: Seq<char>, host: Option<Seq<char>>) -> Result<
    Seq<char>,
    EngineError,
> {
    if author.len() > 0 {
        Ok(author)
    } else {
        match host {
            Some(name) => Ok(name),
            None => Err(EngineError::EmptyField),
        }
    }
}

/// Settles the author, given the host name that the system reported.
pub fn effective_author(author: &str, host: Option<String>) -> (r: Result<String, EngineError>)
    ensures
        match author_of(author@, host.deep_view()) {
            Ok(name) => r is Ok && r->Ok_0@ == name,
            Err(e) => r is Err && r->Err_0 == e,
        },
{
    if !author.is_empty() {
        Ok(author.to_owned())
    } else {
        match host {
            Some(name) => Ok(name),
            None => Err(EngineError::EmptyField),
        }
    }
}

/// Settles the author: the one given, or the name of this host where
/// none is given. The system is asked only in the second case.
pub fn author_or_host(author: &str) -> (r: Result<String, EngineError>)
    ensures
        author@.len() > 0 ==> r is Ok && r->Ok_0@ == author@,
        author@.len() == 0 ==> (r is Ok || r == Err::<String, EngineError>(
            EngineError::EmptyField,
        )),
{
    if !author.is_empty() {
        effective_author(author, None)
    } else {
        effective_author(author, system_host_name())
    }
}

} // verus!
