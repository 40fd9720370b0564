//! The decisions of a whole run: where the channels come from, when
//! resolution has failed, and how the channels are dealt out to watchers.
use vstd::prelude::*;
use crate::batch::{batch_at, batch_end, batches_view, lemma_batch_bounds, lemma_plan_partitions, plan, planned};
use crate::catalog::{
    lemma_unique_of, lowered, names, unique_channels, unique_of, Credentials, ResolutionError,
};

verus! {

/// Where the channels to watch come from.
pub enum Source {
    /// The live channels of the category of this name.
    Category(String),
    /// These channel names.
    Channels(Vec<String>),
}

/// Why a run cannot go on.
#[derive(Clone, Copy, Debug, PartialEq, Eq, Structural)]
pub enum RunError {
    /// Neither or both of a category and a channel list were given.
    BadArguments,
    /// The batch size is zero.
    InvalidBatchSize,
    /// A catalog request failed.
    Resolution(ResolutionError),
    /// Resolution left no channel to watch.
    NoChannels,
}

/// Takes the source of the channels: a category name or a channel list, and
/// exactly one of them.
pub fn select_source(category: Option<String>, channels: Option<Vec<String>>) -> (r: Result<
    Source,
    RunError,
>)
    ensures
        category.is_some() == channels.is_some() <==> r == Err::<Source, RunError>(
            RunError::BadArguments,
        ),
        category.is_some() && channels.is_none() ==> r == Ok::<Source, RunError>(
            Source::Category(category.unwrap()),
        ),
        channels.is_some() && category.is_none() ==> r == Ok::<Source, RunError>(
            Source::Channels(channels.unwrap()),
        ),
{
    match (category, channels) {
        (Some(name), None) => Ok(Source::Category(name)),
        (None, Some(list)) => Ok(Source::Channels(list)),
        _ => Err(RunError::BadArguments),
    }
}

/// The credentials given on the command line, when both parts are there.
pub fn credentials_from(client_id: Option<String>, access_token: Option<String>) -> (r: Option<
    Credentials,
>)
    ensures
        r.is_some() == (client_id.is_some() && access_token.is_some()),
        r matches Some(c) ==> client_id == Some(c.client_id) && access_token == Some(
            c.access_token,
        ),
{
    match (client_id, access_token) {
        (Some(client_id), Some(access_token)) => Some(Credentials { client_id, access_token }),
        _ => None,
    }
}

/// The id of the category that a search resolved to; a search that found no
/// such category is a `NotFound` failure of the run.
pub fn require_category(found: Option<String>) -> (r: Result<String, RunError>)
    ensures
        found matches Some(id) ==> r == Ok::<String, RunError>(id),
        found.is_none() ==> r == Err::<String, RunError>(
            RunError::Resolution(ResolutionError::NotFound),
        ),
{
    match found {
        Some(id) => Ok(id),
        None => Err(RunError::Resolution(ResolutionError::NotFound)),
    }
}

/// The names of each batch.
pub open spec fn batch_names(batches: Seq<Vec<String>>) -> Seq<Seq<Seq<char>>> {
    batches.map_values(|v: Vec<String>| names(v@))
}

/// Deals the resolved channels out into the batches of the watchers. The
/// names are lower-cased and repeats dropped first, so each channel lands in
/// exactly one batch. Fails with `InvalidBatchSize` on a batch size of zero,
/// and with `NoChannels` when there is no channel to watch.
pub fn plan_run(channels: &Vec<String>, batch_size: usize) -> (r: Result<
    Vec<Vec<String>>,
    RunError,
>)
    ensures
        batch_size == 0 ==> r == Err::<Vec<Vec<String>>, RunError>(RunError::InvalidBatchSize),
        batch_size > 0 && channels@.len() == 0 ==> r == Err::<Vec<Vec<String>>, RunError>(
            RunError::NoChannels,
        ),
        batch_size > 0 && channels@.len() > 0 ==> (r matches Ok(batches) && batch_names(batches@)
            == planned(unique_of(lowered(names(channels@))), batch_size as nat)),
{
    if batch_size == 0 {
        return Err(RunError::InvalidBatchSize);
    }
    let unique = unique_channels(channels);
    if unique.len() == 0 {
        return Err(RunError::NoChannels);
    }
    let batches = plan(&unique, batch_size);
    proof {
        let b = batch_size as nat;
        let u = names(unique@);
        let n = unique@.len();
        assert(batches_view(batches@).len() == batches@.len());
        assert forall|i: int| 0 <= i < batches@.len() implies #[trigger] batch_names(batches@)[i]
            == planned(u, b)[i] by {
            lemma_batch_bounds(n, b, i);
            assert(batches@[i]@ == batches_view(batches@)[i]);
            assert(batches@[i]@ == batch_at(unique@, b, i));
            assert(names(batches@[i]@) =~= u.subrange(i * b, batch_end(n as int, b as int, i)));
        }
        assert(batch_names(batches@) =~= planned(u, b));
    }
    Ok(batches)
}

/// Every channel is watched exactly once: the batches of a run, joined, hold
/// each lower-cased input name once and nothing else.
pub proof fn lemma_each_channel_once(channels: Seq<Seq<char>>, b: nat)
    requires
        b > 0,
    ensures
        planned(unique_of(lowered(channels)), b).flatten().no_duplicates(),
        planned(unique_of(lowered(channels)), b).flatten().to_set() == lowered(channels).to_set(),
{
    lemma_unique_of(lowered(channels));
    lemma_plan_partitions(unique_of(lowered(channels)), b);
}

impl RunError {
    /// The diagnostic line for this failure.
    pub fn describe(&self) -> (r: &'static str)
        ensures
            *self == RunError::BadArguments ==> r@ == "Bad arguments combination"@,
            *self == RunError::InvalidBatchSize ==> r@ == "Batch size must be positive"@,
            *self == RunError::Resolution(ResolutionError::Unauthorized) ==> r@ == "Unauthorized"@,
            *self == RunError::Resolution(ResolutionError::BadRequest) ==> r@ == "Bad request"@,
            *self == RunError::Resolution(ResolutionError::NotFound) ==> r@
                == "Category not found"@,
            *self == RunError::Resolution(ResolutionError::Unexpected) ==> r@
                == "Unexpected error"@,
            *self == RunError::NoChannels ==> r@ == "No streams found"@,
    {
        match self {
            RunError::BadArguments => "Bad arguments combination",
            RunError::InvalidBatchSize => "Batch size must be positive",
            RunError::Resolution(ResolutionError::Unauthorized) => "Unauthorized",
            RunError::Resolution(ResolutionError::BadRequest) => "Bad request",
            RunError::Resolution(ResolutionError::NotFound) => "Category not found",
            RunError::Resolution(ResolutionError::Unexpected) => "Unexpected error",
            RunError::NoChannels => "No streams found",
        }
    }
}

} // verus!
