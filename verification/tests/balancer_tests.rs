use webservices::balancer::{
    forwards_header, is_success_status, next_balance_action, refresh, try_order, BalanceAction,
    RemoteStatus,
};

fn remotes(alive: &[bool]) -> Vec<RemoteStatus> {
    alive
        .iter()
        .enumerate()
        .map(|(i, a)| RemoteStatus { address: format!("http://host{}/list", i), alive: *a })
        .collect()
}

#[test]
fn live_remotes_are_tried_first() {
    assert_eq!(try_order(&remotes(&[false, true, false, true])), vec![1, 3, 0, 2]);
    assert_eq!(try_order(&remotes(&[false, false, false])), vec![0, 1, 2]);
    assert_eq!(try_order(&remotes(&[true, true, true])), vec![0, 1, 2]);
    assert_eq!(try_order(&remotes(&[])), Vec::<usize>::new());
}

#[test]
fn refresh_records_each_probe() {
    let mut r = remotes(&[true, false, true]);
    refresh(&mut r, &vec![false, true, true]);
    let alive: Vec<bool> = r.iter().map(|x| x.alive).collect();
    assert_eq!(alive, vec![false, true, true]);
    assert_eq!(r[1].address, "http://host1/list");
}

#[test]
fn transfer_encoding_is_not_forwarded() {
    assert!(!forwards_header("transfer-encoding"));
    assert!(forwards_header("content-type"));
    assert!(forwards_header("content-length"));
}

#[test]
fn only_ok_counts_as_success() {
    assert!(is_success_status(200));
    assert!(!is_success_status(204));
    assert!(!is_success_status(503));
}

#[test]
fn first_success_is_forwarded() {
    let order = vec![2, 0, 1];
    assert!(matches!(next_balance_action(&order, 0, false), BalanceAction::Try(2)));
    assert!(matches!(next_balance_action(&order, 1, false), BalanceAction::Try(0)));
    assert!(matches!(next_balance_action(&order, 2, true), BalanceAction::Forward(0)));
    assert!(matches!(next_balance_action(&order, 3, false), BalanceAction::Unavailable));
    assert!(matches!(next_balance_action(&vec![], 0, false), BalanceAction::Unavailable));
}
