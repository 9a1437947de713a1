use sempal::harvest::{
    next_harvest_touched_revision, AdmissionPollStep, BusinessTaskAdmission, HarvestTouchedPersistAdmission, HarvestTouchedPersistBatchItem,
    HarvestTouchedPersistKey, HarvestTouchedPersistOwner, HarvestTouchedPersistRequest,
    HarvestTouchedPersistResult, HarvestTouchedPersistWork, HARVEST_TOUCHED_BATCH_LIMIT,
    HARVEST_TOUCHED_QUEUE_CAPACITY,
};

fn request(source_id: &str, path: &str) -> HarvestTouchedPersistRequest {
    HarvestTouchedPersistRequest {
        file_id: format!("/tmp/{source_id}/{path}"),
        source_id: source_id.to_string(),
        source_root: format!("/tmp/{source_id}"),
        relative_path: path.to_string(),
    }
}

fn successful(item: &HarvestTouchedPersistWork) -> HarvestTouchedPersistBatchItem {
    HarvestTouchedPersistBatchItem {
        key: item.key.clone(),
        revision: item.revision,
        result: Some(HarvestTouchedPersistResult {
            file_id: item.request.file_id.clone(),
            result: Ok(()),
        }),
    }
}

fn failed(item: &HarvestTouchedPersistWork) -> HarvestTouchedPersistBatchItem {
    HarvestTouchedPersistBatchItem {
        key: item.key.clone(),
        revision: item.revision,
        result: Some(HarvestTouchedPersistResult {
            file_id: item.request.file_id.clone(),
            result: Err(String::from("transient")),
        }),
    }
}

#[test]
fn pending_enqueue_coalesces_to_latest_revision() {
    let mut owner = HarvestTouchedPersistOwner::new();
    assert_eq!(
        owner.enqueue(request("source", "kick.wav")),
        HarvestTouchedPersistAdmission::Queued
    );
    assert_eq!(
        owner.enqueue(request("source", "kick.wav")),
        HarvestTouchedPersistAdmission::Replaced
    );

    let work = owner.queue.claim_batch();
    assert_eq!(work.len(), 1);
    assert_eq!(work[0].request.file_id, "/tmp/source/kick.wav");
    assert_eq!(work[0].revision, 2);
}

#[test]
fn inflight_enqueue_supersedes_without_losing_capacity() {
    let mut owner = HarvestTouchedPersistOwner::new();
    owner.enqueue(request("source", "kick.wav"));
    let first = owner.queue.claim_batch();
    assert_eq!(first.len(), 1);

    assert_eq!(
        owner.enqueue(request("source", "kick.wav")),
        HarvestTouchedPersistAdmission::Replaced
    );
    assert_eq!(owner.queue.len(), 1);
    assert!(!owner.queue.is_current(&first[0].key, first[0].revision));
    assert_eq!(owner.queue.claim_batch().len(), 1);
}

#[test]
fn stale_completion_cannot_remove_replacement() {
    let mut owner = HarvestTouchedPersistOwner::new();
    owner.enqueue(request("source", "kick.wav"));
    let first = owner.queue.claim_batch();
    owner.enqueue(request("source", "kick.wav"));
    owner.queue.acknowledge(&successful(&first[0]));
    assert_eq!(owner.queue.len(), 1);
}

#[test]
fn capacity_counts_inflight_and_pending_entries() {
    let mut owner = HarvestTouchedPersistOwner::new();
    for index in 0..HARVEST_TOUCHED_QUEUE_CAPACITY {
        assert_eq!(
            owner.enqueue(request("source", &format!("{index}.wav"))),
            HarvestTouchedPersistAdmission::Queued
        );
    }
    let _ = owner.queue.claim_batch();
    assert_eq!(
        owner.enqueue(request("source", "overflow.wav")),
        HarvestTouchedPersistAdmission::Saturated
    );
    assert_eq!(
        owner.enqueue(request("source", "0.wav")),
        HarvestTouchedPersistAdmission::Replaced
    );
}

#[test]
fn finite_batches_preserve_fifo_and_limit() {
    let mut owner = HarvestTouchedPersistOwner::new();
    for index in 0..(HARVEST_TOUCHED_BATCH_LIMIT + 1) {
        owner.enqueue(request("source", &format!("{index}.wav")));
    }
    let first = owner.queue.claim_batch();
    assert_eq!(first.len(), HARVEST_TOUCHED_BATCH_LIMIT);
    assert_eq!(first[0].request.relative_path, "0.wav");
    assert_eq!(owner.queue.claim_batch().len(), 1);
}

#[test]
fn close_rejects_late_enqueue_and_reports_admitted_work() {
    let mut owner = HarvestTouchedPersistOwner::new();
    owner.enqueue(request("source", "kick.wav"));
    assert_eq!(owner.close(), 1);
    assert_eq!(
        owner.enqueue(request("source", "snare.wav")),
        HarvestTouchedPersistAdmission::Saturated
    );
}

#[test]
fn failed_revision_is_retained_without_immediate_retry_loop() {
    let mut owner = HarvestTouchedPersistOwner::new();
    owner.enqueue(request("source", "kick.wav"));
    let work = owner.queue.claim_batch();
    owner.queue.acknowledge(&failed(&work[0]));
    assert_eq!(owner.queue.len(), 1);
    assert!(!owner.queue.has_pending());
}

#[test]
fn successful_completion_removes_the_current_claim() {
    let mut owner = HarvestTouchedPersistOwner::new();
    owner.enqueue(request("source", "kick.wav"));
    let work = owner.queue.claim_batch();
    assert!(owner.queue.is_current(&work[0].key, work[0].revision));
    owner.queue.acknowledge(&successful(&work[0]));
    assert_eq!(owner.queue.len(), 0);
    assert!(owner.queue.claim_batch().is_empty());
}

#[test]
fn stale_completion_of_a_reclaimed_replacement_is_ignored() {
    let mut owner = HarvestTouchedPersistOwner::new();
    owner.enqueue(request("source", "kick.wav"));
    let first = owner.queue.claim_batch();
    owner.enqueue(request("source", "kick.wav"));
    let second = owner.queue.claim_batch();
    assert_eq!(second.len(), 1);
    assert!(second[0].revision > first[0].revision);
    owner.queue.acknowledge(&successful(&first[0]));
    assert_eq!(owner.queue.len(), 1);
    assert!(owner.queue.is_current(&second[0].key, second[0].revision));
}

#[test]
fn blocked_entries_resume_after_a_fresh_enqueue() {
    let mut owner = HarvestTouchedPersistOwner::new();
    owner.enqueue(request("source", "kick.wav"));
    owner.enqueue(request("source", "snare.wav"));
    let work = owner.queue.claim_batch();
    assert_eq!(work.len(), 2);
    owner.block_admission_retry_queue();
    assert!(!owner.queue.has_pending());
    assert!(!owner.queue.is_current(&work[0].key, work[0].revision));
    assert_eq!(
        owner.enqueue(request("source", "kick.wav")),
        HarvestTouchedPersistAdmission::Replaced
    );
    assert!(owner.queue.has_pending());
    let again = owner.queue.claim_batch();
    assert_eq!(again.len(), 1);
    assert_eq!(again[0].request.relative_path, "kick.wav");
}

#[test]
fn invalidate_forgets_the_entry_and_its_queued_key() {
    let mut owner = HarvestTouchedPersistOwner::new();
    owner.enqueue(request("source", "kick.wav"));
    owner.enqueue(request("source", "snare.wav"));
    owner.invalidate(&request("source", "kick.wav"));
    assert_eq!(owner.queue.len(), 1);
    let work = owner.queue.claim_batch();
    assert_eq!(work.len(), 1);
    assert_eq!(work[0].key, HarvestTouchedPersistKey::from_request(&request("source", "snare.wav")));
}

#[test]
fn revisions_increase_with_every_enqueue() {
    let mut owner = HarvestTouchedPersistOwner::new();
    assert_eq!(next_harvest_touched_revision(&mut owner.queue), 1);
    assert_eq!(next_harvest_touched_revision(&mut owner.queue), 2);
    owner.enqueue(request("source", "kick.wav"));
    let work = owner.queue.claim_batch();
    assert_eq!(work[0].revision, 3);
}

#[test]
fn enqueue_rearms_the_admission_retry() {
    let mut owner = HarvestTouchedPersistOwner::new();
    owner.admission_retry_used = true;
    owner.enqueue(request("source", "kick.wav"));
    assert!(!owner.admission_retry_used);
    owner.admission_retry_used = true;
    owner.close();
    assert_eq!(
        owner.enqueue(request("source", "kick.wav")),
        HarvestTouchedPersistAdmission::Saturated
    );
    assert!(owner.admission_retry_used);
}

#[test]
fn rejected_receipt_retries_later_without_reclaiming_before_admission() {
    let mut owner = HarvestTouchedPersistOwner::new();
    owner.enqueue(request("source", "kick.wav"));
    assert!(owner.ready_to_schedule(false));
    assert!(!owner.ready_to_schedule(true));

    assert_eq!(
        owner.poll_admission(Some(BusinessTaskAdmission::Rejected)),
        AdmissionPollStep::RetryLater
    );
    assert!(owner.admission_retry_used);
    assert!(owner.queue.has_pending());

    assert_eq!(owner.poll_admission(None), AdmissionPollStep::ScheduleIfIdle);
    assert!(owner.ready_to_schedule(false));

    assert_eq!(
        owner.poll_admission(Some(BusinessTaskAdmission::Rejected)),
        AdmissionPollStep::Blocked
    );
    assert!(!owner.queue.has_pending());
    assert!(!owner.ready_to_schedule(false));

    owner.enqueue(request("source", "snare.wav"));
    assert!(!owner.admission_retry_used);
    assert!(owner.ready_to_schedule(false));
}

#[test]
fn admission_polls_wait_keep_or_drop_the_receipt() {
    let mut owner = HarvestTouchedPersistOwner::new();
    owner.enqueue(request("source", "kick.wav"));

    assert_eq!(
        owner.poll_admission(Some(BusinessTaskAdmission::Pending)),
        AdmissionPollStep::PollAgain
    );
    assert_eq!(
        owner.poll_admission(Some(BusinessTaskAdmission::Accepted)),
        AdmissionPollStep::Admitted
    );
    assert_eq!(
        owner.poll_admission(Some(BusinessTaskAdmission::Closed)),
        AdmissionPollStep::DropReceipt
    );
    assert!(!owner.admission_retry_used);
    assert!(owner.queue.has_pending());
}

#[test]
fn finishing_a_batch_acknowledges_every_completion_and_rearms_recovery() {
    let mut owner = HarvestTouchedPersistOwner::new();
    owner.enqueue(request("source", "kick.wav"));
    owner.enqueue(request("source", "snare.wav"));
    owner.poll_admission(Some(BusinessTaskAdmission::Rejected));
    let claimed = owner.queue.claim_batch();
    assert_eq!(claimed.len(), 2);

    owner.finish(false, &vec![successful(&claimed[0]), failed(&claimed[1])]);
    assert!(owner.admission_retry_used);
    assert_eq!(owner.queue.len(), 1);
    assert!(!owner.queue.has_pending());

    owner.finish(true, &Vec::new());
    assert!(!owner.admission_retry_used);
}
