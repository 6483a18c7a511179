use cubecl_wgpu_server::cache_file::{PipelineCacheState, SaveStep, TEMPORARY_EXTENSION};

fn saved(has_parent: bool, data: Option<Vec<u8>>, can_write: bool) -> Vec<String> {
    let state = PipelineCacheState::new(has_parent);
    let mut log = Vec::new();
    let mut step = state.save();
    let mut data = Some(data);
    loop {
        step = match step {
            SaveStep::GetData => {
                log.push("get".to_string());
                state.data_read(data.take().unwrap())
            }
            SaveStep::CreateParent { data } => {
                log.push("parent".to_string());
                state.parent_created(data)
            }
            SaveStep::WriteTemporary { data } => {
                log.push(format!("write {data:?}"));
                state.temporary_written(can_write)
            }
            SaveStep::Rename => {
                log.push("rename".to_string());
                state.renamed()
            }
            SaveStep::Done => return log,
        };
    }
}

#[test]
fn save_writes_beside_and_renames() {
    assert_eq!(saved(true, Some(vec![1, 2]), true), ["get", "parent", "write [1, 2]", "rename"]);
}

#[test]
fn save_without_parent_creates_no_directory() {
    assert_eq!(saved(false, Some(vec![]), true), ["get", "write []", "rename"]);
}

#[test]
fn failed_write_leaves_the_file() {
    assert_eq!(saved(true, Some(vec![9]), false), ["get", "parent", "write [9]"]);
}

#[test]
fn cache_without_data_is_not_written() {
    assert_eq!(saved(true, None, true), ["get"]);
}

#[test]
fn temporary_file_has_its_own_extension() {
    let path = std::path::Path::new("cache/pipelines.bin");
    assert_eq!(
        path.with_extension(TEMPORARY_EXTENSION),
        std::path::Path::new("cache/pipelines.tmp")
    );
}
