use smash::task::{add_task, run_tasks, TaskQueue, Tick};

#[test]
fn new_queue_is_empty() {
    let mut queue: TaskQueue<u32> = TaskQueue::new();
    assert!(queue.is_empty());
    assert_eq!(queue.len(), 0);
    assert!(run_tasks(&mut queue).is_empty());
}

#[test]
fn tasks_come_out_in_the_order_added() {
    let mut queue: TaskQueue<&str> = TaskQueue::new();
    let _ = add_task(&mut queue, "one");
    let _ = add_task(&mut queue, "two");
    let _ = add_task(&mut queue, "three");
    assert_eq!(queue.len(), 3);
    assert!(!queue.is_empty());
    assert_eq!(run_tasks(&mut queue), vec!["one", "two", "three"]);
}

#[test]
fn a_flush_takes_everything_once() {
    let mut queue: TaskQueue<u32> = TaskQueue::new();
    let _ = add_task(&mut queue, 1);
    let _ = add_task(&mut queue, 2);
    assert_eq!(run_tasks(&mut queue), vec![1, 2]);
    assert!(queue.is_empty());
    assert!(run_tasks(&mut queue).is_empty());
}

#[test]
fn task_added_during_a_flush_runs_in_the_next() {
    let mut queue: TaskQueue<u32> = TaskQueue::new();
    let _ = add_task(&mut queue, 1);
    let _ = add_task(&mut queue, 2);

    let mut ran: Vec<u32> = Vec::new();
    for task in run_tasks(&mut queue) {
        ran.push(task);
        if task == 1 {
            // Task 1 asks for a follow-up while the batch is running.
            let _ = add_task(&mut queue, 10);
        }
    }
    assert_eq!(ran, vec![1, 2]);
    assert_eq!(queue.len(), 1);

    let mut ran_next: Vec<u32> = Vec::new();
    for task in run_tasks(&mut queue) {
        ran_next.push(task);
    }
    assert_eq!(ran_next, vec![10]);
    assert!(queue.is_empty());
}

#[test]
fn every_added_task_asks_for_a_tick() {
    let mut queue: TaskQueue<u32> = TaskQueue::new();
    let ticks: Vec<Tick> = vec![add_task(&mut queue, 1), add_task(&mut queue, 2)];
    assert_eq!(ticks.len(), queue.len());
}
