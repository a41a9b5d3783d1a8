//! Why a merge cannot be carried through.
use vstd::prelude::*;

verus! {

/// What a merge itself finds amiss. Failures of the work that it asks for are not
/// among these.
#[derive(Clone, Debug, PartialEq, Eq)]
pub enum MergeError {
    /// There is no index meta to build the union on.
    NoIndexMeta,
    /// There are deletes to apply and nothing to turn them into queries.
    MissingDocMapper,
    /// The merged segment lacks the timestamp field of this name.
    MissingTimestampField(String),
    /// A reply came to something that was not asked.
    UnexpectedReply,
}

/// Mathematical view of a [`MergeError`].
pub enum MergeErrorView {
    NoIndexMeta,
    MissingDocMapper,
    MissingTimestampField(Seq<char>),
    UnexpectedReply,
}

impl View for MergeError {
    type V = MergeErrorView;

    open spec fn view(&self) -> MergeErrorView {
        match self {
            MergeError::NoIndexMeta => MergeErrorView::NoIndexMeta,
            MergeError::MissingDocMapper => MergeErrorView::MissingDocMapper,
            MergeError::MissingTimestampField(name) => MergeErrorView::MissingTimestampField(name@),
            MergeError::UnexpectedReply => MergeErrorView::UnexpectedReply,
        }
    }
}

impl MergeErrorView {
    /// The words for the error.
    pub open spec fn message(self) -> Seq<char> {
        match self {
            MergeErrorView::NoIndexMeta => "Only one IndexMeta"@,
            MergeErrorView::MissingDocMapper =>
                "Doc mapper must be present if there are delete tasks."@,
            MergeErrorView::MissingTimestampField(name) => "Timestamp field `"@ + name
                + "` does not exist"@,
            MergeErrorView::UnexpectedReply => "The reply does not answer what was asked."@,
        }
    }
}

impl MergeError {
    /// The words for the error.
    pub fn message(&self) -> (message: String)
        ensures
            message@ == self@.message(),
            match self {
                MergeError::NoIndexMeta => message@ == "Only one IndexMeta"@,
                MergeError::MissingDocMapper => message@
                    == "Doc mapper must be present if there are delete tasks."@,
                MergeError::MissingTimestampField(name) => message@ == "Timestamp field `"@ + name@
                    + "` does not exist"@,
                MergeError::UnexpectedReply => message@
                    == "The reply does not answer what was asked."@,
            },
    {
        match self {
            MergeError::NoIndexMeta => "Only one IndexMeta".to_string(),
            MergeError::MissingDocMapper =>
                "Doc mapper must be present if there are delete tasks.".to_string(),
            MergeError::MissingTimestampField(name) => {
                let mut message: String = "Timestamp field `".to_string();
                message.append(name.as_str());
                message.append("` does not exist");
                message
            },
            MergeError::UnexpectedReply => "The reply does not answer what was asked.".to_string(),
        }
    }
}

} // verus!
