use devconcurrent::Status;

#[test]
fn test() {}

#[test]
fn status_order_is_total() {
    let order = [
        Status::Empty,
        Status::Dead,
        Status::Exited,
        Status::Removing,
        Status::Created,
        Status::Paused,
        Status::Restarting,
        Status::Running,
    ];
    for (i, a) in order.iter().enumerate() {
        for (j, b) in order.iter().enumerate() {
            assert_eq!(a.rank_val() < b.rank_val(), i < j);
        }
    }
}

#[test]
fn status_max_prefers_more_alive() {
    assert_eq!(Status::Exited.max2(Status::Running), Status::Running);
    assert_eq!(Status::Running.max2(Status::Exited), Status::Running);
    assert_eq!(Status::Empty.max2(Status::Dead), Status::Dead);
    assert_eq!(Status::Paused.max2(Status::Paused), Status::Paused);
}
