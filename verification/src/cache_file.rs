//! How the driver's pipeline cache is written to disk.
use vstd::prelude::*;

verus! {

/// Where the driver's pipeline cache is kept between runs.
#[derive(Clone, Copy, Debug, PartialEq, Eq, Structural)]
pub struct PipelineCacheState {
    /// Whether the path of the cache file has a parent directory.
    pub has_parent: bool,
}

/// The extension of the temporary file.
pub const TEMPORARY_EXTENSION: &'static str = "tmp";

/// What has to be done next to save the pipeline cache.
///
/// A file beside the cache file is called the temporary file; it differs from it in the
/// extension alone, which is [`TEMPORARY_EXTENSION`].
#[derive(Debug, PartialEq, Eq)]
pub enum SaveStep {
    /// Ask the driver for the contents of the cache.
    GetData,
    /// Create the parent directory and everything above it.
    CreateParent { data: Vec<u8> },
    /// Write the data to the temporary file.
    WriteTemporary { data: Vec<u8> },
    /// Rename the temporary file to the cache file.
    Rename,
    /// Nothing is left to do.
    Done,
}

impl PipelineCacheState {
    /// The state of a cache whose file has, or has not, a parent directory.
    pub fn new(has_parent: bool) -> (state: Self)
        ensures
            state == (PipelineCacheState { has_parent }),
    {
        PipelineCacheState { has_parent }
    }

    /// Starts to write the current cache contents to disk.
    pub fn save(&self) -> (step: SaveStep)
        ensures
            step == SaveStep::GetData,
    {
        SaveStep::GetData
    }

    /// What follows once the driver has handed out the contents, or has none.
    pub open spec fn spec_data_read(self, data: Option<Vec<u8>>) -> SaveStep {
        match data {
            None => SaveStep::Done,
            Some(data) => if self.has_parent {
                SaveStep::CreateParent { data }
            } else {
                SaveStep::WriteTemporary { data }
            },
        }
    }

    /// Goes on with the contents that the driver handed out; without any, nothing is written.
    pub fn data_read(&self, data: Option<Vec<u8>>) -> (step: SaveStep)
        ensures
            step == self.spec_data_read(data),
    {
        match data {
            None => SaveStep::Done,
            Some(data) => {
                if self.has_parent {
                    SaveStep::CreateParent { data }
                } else {
                    SaveStep::WriteTemporary { data }
                }
            },
        }
    }

    /// Goes on once the parent directory was created, whether or not that succeeded.
    pub fn parent_created(&self, data: Vec<u8>) -> (step: SaveStep)
        ensures
            step == (SaveStep::WriteTemporary { data }),
    {
        SaveStep::WriteTemporary { data }
    }

    /// What follows once the temporary file was written, or was not.
    pub open spec fn spec_temporary_written(self, written: bool) -> SaveStep {
        if written {
            SaveStep::Rename
        } else {
            SaveStep::Done
        }
    }

    /// Goes on once the temporary file was written; where that failed, the cache file is left
    /// as it was.
    pub fn temporary_written(&self, written: bool) -> (step: SaveStep)
        ensures
            step == self.spec_temporary_written(written),
    {
        if written {
            SaveStep::Rename
        } else {
            SaveStep::Done
        }
    }

    /// Ends the save, whether or not the file could be renamed.
    pub fn renamed(&self) -> (step: SaveStep)
        ensures
            step == SaveStep::Done,
    {
        SaveStep::Done
    }
}

/// What the world answers while a cache is saved.
pub ghost struct SaveWorld {
    /// What the driver hands out.
    pub data: Option<Vec<u8>>,
    /// Whether the temporary file can be written.
    pub written: bool,
}

/// The step after `step`, given what the world answers.
pub open spec fn next_save_step(
    state: PipelineCacheState,
    step: SaveStep,
    world: SaveWorld,
) -> SaveStep {
    match step {
        SaveStep::GetData => state.spec_data_read(world.data),
        SaveStep::CreateParent { data } => SaveStep::WriteTemporary { data },
        SaveStep::WriteTemporary { .. } => state.spec_temporary_written(world.written),
        SaveStep::Rename => SaveStep::Done,
        SaveStep::Done => SaveStep::Done,
    }
}

/// The steps from `step` on, up to the last, or as many as `limit` allows.
pub open spec fn save_steps(
    state: PipelineCacheState,
    step: SaveStep,
    world: SaveWorld,
    limit: nat,
) -> Seq<SaveStep>
    decreases limit,
{
    if step == SaveStep::Done || limit == 0 {
        seq![step]
    } else {
        seq![step] + save_steps(
            state,
            next_save_step(state, step, world),
            world,
            (limit - 1) as nat,
        )
    }
}

/// Saving ends, and the cache file is touched only by renaming a temporary file to it right after
/// all of the data was written there, which happens exactly where there is data and it could be
/// written.
pub proof fn save_is_atomic(state: PipelineCacheState, world: SaveWorld, limit: nat)
    requires
        limit >= 4,
    ensures
        ({
            let steps = save_steps(state, SaveStep::GetData, world, limit);
            &&& steps.last() == SaveStep::Done
            &&& steps.contains(SaveStep::Rename) <==> world.data is Some && world.written
            &&& forall|i: int|
                0 <= i < steps.len() && #[trigger] steps[i] == SaveStep::Rename ==> {
                    &&& i > 0
                    &&& steps[i - 1] == SaveStep::WriteTemporary { data: world.data->0 }
                    &&& world.written
                }
        }),
{
    reveal_with_fuel(save_steps, 5);
    let steps = save_steps(state, SaveStep::GetData, world, limit);
    if let Some(data) = world.data {
        let write = SaveStep::WriteTemporary { data };
        if state.has_parent {
            if world.written {
                assert(steps =~= seq![
                    SaveStep::GetData,
                    SaveStep::CreateParent { data },
                    write,
                    SaveStep::Rename,
                    SaveStep::Done,
                ]);
                assert(steps[3] == SaveStep::Rename);
            } else {
                assert(steps =~= seq![
                    SaveStep::GetData,
                    SaveStep::CreateParent { data },
                    write,
                    SaveStep::Done,
                ]);
            }
        } else {
            if world.written {
                assert(steps =~= seq![SaveStep::GetData, write, SaveStep::Rename, SaveStep::Done]);
                assert(steps[2] == SaveStep::Rename);
            } else {
                assert(steps =~= seq![SaveStep::GetData, write, SaveStep::Done]);
            }
        }
    } else {
        assert(steps =~= seq![SaveStep::GetData, SaveStep::Done]);
    }
}

/// Contents that the driver hands out are written, whole, to the temporary file, once the parent
/// directory was created where the cache file has one; without contents nothing is done.
pub proof fn contents_are_written(state: PipelineCacheState, data: Option<Vec<u8>>)
    ensures
        state.spec_data_read(data) is Done <==> data is None,
        state.spec_data_read(data) is CreateParent <==> data is Some && state.has_parent,
        match state.spec_data_read(data) {
            SaveStep::Done => true,
            SaveStep::CreateParent { data: contents } => Some(contents) == data,
            SaveStep::WriteTemporary { data: contents } => Some(contents) == data,
            _ => false,
        },
{
}

/// The temporary file takes the place of the cache file exactly where it was written.
pub proof fn written_file_is_renamed(state: PipelineCacheState, written: bool)
    ensures
        state.spec_temporary_written(written) is Rename <==> written,
        state.spec_temporary_written(written) is Done <==> !written,
{
}

/// The parent directory is created exactly where there is data to write and the cache file has a
/// parent directory, and then right before the data is written; whatever is written is the data
/// that the driver handed out.
pub proof fn parent_is_created_before_the_write(
    state: PipelineCacheState,
    world: SaveWorld,
    limit: nat,
)
    requires
        limit >= 4,
    ensures
        ({
            let steps = save_steps(state, SaveStep::GetData, world, limit);
            &&& steps[0] == SaveStep::GetData
            &&& world.data is None ==> steps.len() == 2
            &&& world.data matches Some(data) ==> {
                let write = if state.has_parent {
                    2int
                } else {
                    1int
                };
                &&& state.has_parent ==> steps[1] == SaveStep::CreateParent { data }
                &&& steps[write] == SaveStep::WriteTemporary { data }
                &&& steps.len() == write + if world.written {
                    3int
                } else {
                    2int
                }
                &&& world.written ==> steps[write + 1] == SaveStep::Rename
            }
        }),
{
    reveal_with_fuel(save_steps, 5);
}

} // verus!
