use bacchus_gpu_controller::queue::{advance, Step};

fn run(items: Vec<u8>, mut outcomes: Vec<Result<(), &'static str>>) -> (Vec<u8>, Step<u8, &'static str>) {
    let mut pending = items;
    let mut issued = Vec::new();
    let mut outcome = Ok(());
    loop {
        match advance(&mut pending, outcome) {
            Step::Issue(item) => {
                issued.push(item);
                outcome = outcomes.remove(0);
            }
            last => return (issued, last),
        }
    }
}

#[test]
fn items_are_issued_in_order() {
    assert_eq!(run(vec![1, 2, 3], vec![Ok(()), Ok(()), Ok(())]), (vec![1, 2, 3], Step::Done));
    assert_eq!(run(vec![], vec![]), (vec![], Step::Done));
}

#[test]
fn nothing_is_issued_behind_a_failure() {
    assert_eq!(run(vec![1, 2, 3], vec![Ok(()), Err("no")]), (vec![1, 2], Step::Failed("no")));
}

#[test]
fn failure_leaves_the_rest_pending() {
    let mut pending = vec![1, 2];
    assert_eq!(advance(&mut pending, Err("no")), Step::Failed("no"));
    assert_eq!(pending, vec![1, 2]);
}
