use sworker::hashes::SrdHashes;
use sworker::increase::{
    IncreaseAction, IncreasePhase, SrdIncrease, DIGEST_SIZE, M_FILE_COUNT,
};
use sworker::status::{SGX_ERROR_INVALID_PARAMETER, SGX_ERROR_UNEXPECTED, SGX_SUCCESS};
use sworker::text::to_hex_string;

fn started() -> SrdIncrease {
    let (mut job, action) = SrdIncrease::begin(&vec![0xab; 16]);
    assert_eq!(action, IncreaseAction::CreateDir { path: "ab".repeat(16) });
    assert_eq!(job.on_dir_created(), IncreaseAction::SealMFile { index: 0 });
    job
}

#[test]
fn a_job_starts_with_a_random_directory_and_a_zeroed_list() {
    let (job, action) = SrdIncrease::begin(&vec![1, 2, 3]);
    assert_eq!(action, IncreaseAction::CreateDir { path: "010203".to_string() });
    assert_eq!(job.dir_path, "010203");
    assert_eq!(job.m_hashs, vec![0u8; M_FILE_COUNT * DIGEST_SIZE]);
    assert_eq!(job.phase, IncreasePhase::CreatingDir);
}

#[test]
fn a_full_job_records_the_digest_of_its_list() {
    let mut job = started();
    let dir = "ab".repeat(16);
    for i in 0..M_FILE_COUNT {
        let digest = vec![(i % 256) as u8; DIGEST_SIZE];
        let action = job.on_m_file_hashed(vec![9, 9, i as u8], Some(digest.clone()));
        assert_eq!(
            action,
            IncreaseAction::StoreFile {
                path: format!("{}/{}_{}", dir, i, to_hex_string(digest)),
                data: vec![9, 9, i as u8],
            }
        );
        let next = job.on_m_file_stored(SGX_SUCCESS);
        if i + 1 < M_FILE_COUNT {
            assert_eq!(next, IncreaseAction::SealMFile { index: i + 1 });
        } else {
            assert_eq!(next, IncreaseAction::HashList);
        }
    }
    let mut expected_list = vec![0u8; M_FILE_COUNT * DIGEST_SIZE];
    for i in 0..M_FILE_COUNT {
        expected_list.extend(vec![(i % 256) as u8; DIGEST_SIZE]);
    }
    assert_eq!(job.m_hashs, expected_list);
    let action = job.on_list_hashed(Some(vec![0x5e; DIGEST_SIZE]));
    assert_eq!(
        action,
        IncreaseAction::StoreFile { path: format!("{}/m-hashs", dir), data: expected_list }
    );
    assert_eq!(
        job.on_list_stored(SGX_SUCCESS),
        IncreaseAction::Rename { from: dir.clone(), to: "5e".repeat(DIGEST_SIZE) }
    );
    let mut hashes = SrdHashes::new();
    hashes.add_srd_hash("older".to_string());
    assert_eq!(job.on_renamed(&mut hashes), SGX_SUCCESS);
    assert_eq!(hashes.hashes, vec!["older".to_string(), "5e".repeat(DIGEST_SIZE)]);
    assert_eq!(job.phase, IncreasePhase::Finished);
}

#[test]
fn a_failed_seal_ends_the_job_with_its_status() {
    let mut job = started();
    assert_eq!(job.on_seal_failed(0x3), IncreaseAction::Fail { status: 0x3 });
    assert_eq!(job.phase, IncreasePhase::Finished);
}

#[test]
fn a_rejected_buffer_ends_the_job_as_an_invalid_parameter() {
    let mut job = started();
    assert_eq!(
        job.on_seal_failed(SGX_ERROR_INVALID_PARAMETER),
        IncreaseAction::Fail { status: SGX_ERROR_INVALID_PARAMETER }
    );
}

#[test]
fn a_missing_digest_ends_the_job_as_unexpected() {
    let mut job = started();
    assert_eq!(job.on_m_file_hashed(vec![1], None), IncreaseAction::Fail { status: SGX_ERROR_UNEXPECTED });
    assert_eq!(job.phase, IncreasePhase::Finished);
}

#[test]
fn a_failed_store_ends_the_job_with_its_status() {
    let mut job = started();
    job.on_m_file_hashed(vec![1], Some(vec![2; DIGEST_SIZE]));
    assert_eq!(job.on_m_file_stored(0x1001), IncreaseAction::Fail { status: 0x1001 });
    assert_eq!(job.index, 0);
    assert_eq!(job.m_hashs.len(), M_FILE_COUNT * DIGEST_SIZE);
}

#[test]
fn a_stored_file_adds_its_digest_to_the_list() {
    let mut job = started();
    job.on_m_file_hashed(vec![1], Some(vec![7; DIGEST_SIZE]));
    assert_eq!(job.on_m_file_stored(SGX_SUCCESS), IncreaseAction::SealMFile { index: 1 });
    assert_eq!(job.index, 1);
    assert_eq!(job.m_hashs.len(), (M_FILE_COUNT + 1) * DIGEST_SIZE);
    assert_eq!(&job.m_hashs[M_FILE_COUNT * DIGEST_SIZE..], &[7u8; DIGEST_SIZE][..]);
}

#[test]
fn a_stored_file_is_routed_by_what_was_being_written() {
    let mut job = started();
    job.on_m_file_hashed(vec![1], Some(vec![3; DIGEST_SIZE]));
    assert_eq!(job.on_file_stored(SGX_SUCCESS), IncreaseAction::SealMFile { index: 1 });
    assert_eq!(job.index, 1);
    job.on_m_file_hashed(vec![1], Some(vec![4; DIGEST_SIZE]));
    assert_eq!(job.on_file_stored(0x7), IncreaseAction::Fail { status: 0x7 });
    assert_eq!(job.index, 1);
}

#[test]
fn a_stored_list_leads_to_the_rename() {
    let mut job = started();
    for _ in 0..M_FILE_COUNT {
        job.on_m_file_hashed(vec![1], Some(vec![0; DIGEST_SIZE]));
        job.on_file_stored(SGX_SUCCESS);
    }
    assert_eq!(job.m_hashs.len(), 2 * M_FILE_COUNT * DIGEST_SIZE);
    job.on_list_hashed(Some(vec![0xc3; 2]));
    assert_eq!(
        job.on_file_stored(SGX_SUCCESS),
        IncreaseAction::Rename { from: "ab".repeat(16), to: "c3c3".to_string() }
    );
}
