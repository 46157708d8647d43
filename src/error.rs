//! What can go wrong while resolving a document's blocks.
use vstd::prelude::*;

verus! {

/// A failure of a run.
#[derive(Debug)]
pub enum SnipError {
    /// A block was still open at `line`, a new start fence, or at the end of
    /// the document when `line` is `None`.
    UnclosedBlock { line: Option<String> },
    /// The example file at `path` could not be opened, for `reason`.
    ExampleFileNotFound { path: String, reason: String },
    /// The example file at `path` holds no complete, non-blank region for `id`.
    SnippetNotFound { id: String, path: String },
}

/// The mathematical value of a [`SnipError`].
pub enum Failure {
    Unclosed(Option<Seq<char>>),
    NoExample(Seq<char>, Seq<char>),
    NoSnippet(Seq<char>, Seq<char>),
}

impl View for SnipError {
    type V = Failure;

    open spec fn view(&self) -> Failure {
        match self {
            SnipError::UnclosedBlock { line } => Failure::Unclosed(
                match line {
                    Some(l) => Some(l@),
                    None => None,
                },
            ),
            SnipError::ExampleFileNotFound { path, reason } => Failure::NoExample(path@, reason@),
            SnipError::SnippetNotFound { id, path } => Failure::NoSnippet(id@, path@),
        }
    }
}

/// The diagnostic for a failure.
pub open spec fn message_spec(f: Failure) -> Seq<char> {
    match f {
        Failure::Unclosed(Some(l)) => "Unclosed YAML block before text'"@ + l + "'"@,
        Failure::Unclosed(None) => "Unclosed YAML block before end of file"@,
        Failure::NoExample(path, reason) => "Error opening file '"@ + path + "': "@ + reason,
        Failure::NoSnippet(id, path) => "Snippet "@ + id + " not found in file "@ + path,
    }
}

impl SnipError {
    /// A copy of this error.
    pub fn duplicate(&self) -> (r: SnipError)
        ensures
            r@ == self@,
    {
        match self {
            SnipError::UnclosedBlock { line } => SnipError::UnclosedBlock {
                line: match line {
                    Some(l) => Some(l.clone()),
                    None => None,
                },
            },
            SnipError::ExampleFileNotFound { path, reason } => SnipError::ExampleFileNotFound {
                path: path.clone(),
                reason: reason.clone(),
            },
            SnipError::SnippetNotFound { id, path } => SnipError::SnippetNotFound {
                id: id.clone(),
                path: path.clone(),
            },
        }
    }

    /// The diagnostic that names what failed and where.
    pub fn message(&self) -> (r: String)
        ensures
            r@ == message_spec(self@),
    {
        match self {
            SnipError::UnclosedBlock { line: Some(l) } => {
                let mut m = "Unclosed YAML block before text'".to_owned();
                m.append(l.as_str());
                m.append("'");
                m
            },
            SnipError::UnclosedBlock { line: None } => {
                "Unclosed YAML block before end of file".to_owned()
            },
            SnipError::ExampleFileNotFound { path, reason } => {
                let mut m = "Error opening file '".to_owned();
                m.append(path.as_str());
                m.append("': ");
                m.append(reason.as_str());
                m
            },
            SnipError::SnippetNotFound { id, path } => {
                let mut m = "Snippet ".to_owned();
                m.append(id.as_str());
                m.append(" not found in file ");
                m.append(path.as_str());
                m
            },
        }
    }
}

} // verus!
