use piper::error::InternalFailure;
use piper::links::SendReport;
use piper::recycle::{BufferLease, BufferLeaseOutput, Recycle};

#[test]
fn lease_returns_recycled_value_on_drop() {
    let mut lease = BufferLease::new(vec![1, 2, 3]);
    lease.get_mut().push(4);

    let recycled = lease.take_recycled().unwrap();
    assert!(recycled.is_empty());
    assert!(recycled.capacity() >= 4);
    assert_eq!(lease.take_recycled(), None);
}

#[test]
fn lease_recycle_failure_is_fatal_outside_shutdown() {
    let mut lease = BufferLease::new(vec![1]);
    assert!(lease.take_recycled().is_some());

    let report = BufferLease::<Vec<u32>>::return_report(false, false, false);
    assert!(matches!(report, SendReport::Fatal));
    let failure: InternalFailure<()> = BufferLease::<Vec<u32>>::internal_failure();
    let InternalFailure::Internal { message } = failure else {
        panic!("expected internal recycle failure");
    };
    assert!(message.contains("recycle"));
    assert_eq!(message, "recycle channel closed while returning BufferLease");
}

#[test]
fn a_lost_buffer_is_ignored_while_stopping() {
    assert!(matches!(BufferLease::<Vec<u8>>::return_report(true, false, false), SendReport::Counted));
    assert!(matches!(BufferLease::<Vec<u8>>::return_report(false, true, false), SendReport::Dropped));
    assert!(matches!(BufferLease::<Vec<u8>>::return_report(false, false, true), SendReport::Dropped));
}

#[test]
fn into_inner_keeps_the_value() {
    let mut lease = BufferLease::new(vec![5, 6]);
    lease.get_mut().push(7);
    assert_eq!(lease.get(), &vec![5, 6, 7]);
    assert_eq!(lease.into_inner(), vec![5, 6, 7]);
}

#[test]
fn a_taken_value_is_not_recycled() {
    let mut lease = BufferLease::new(vec![1]);
    assert_eq!(lease.take(), Some(vec![1]));
    assert_eq!(lease.take_recycled(), None);
}

#[test]
fn recycling_empties_a_vector() {
    let mut buffer = vec!["a", "b"];
    buffer.recycle();
    assert!(buffer.is_empty());
}

fn leased<T, O: BufferLeaseOutput<T>>(output: O) -> O {
    output
}

#[test]
fn a_lease_can_be_given_out() {
    assert_eq!(leased(BufferLease::new(vec![1, 2])).into_inner(), vec![1, 2]);
}
