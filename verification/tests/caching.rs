use observe::CachingObserver;
use observe::Observer;
use observe::SharedObserver;
use std::cell::Cell;

/// An observer that writes down every call it receives and fails the call
/// whose number (counted from zero) is `fail_at`.
#[derive(Debug, Default)]
struct Recorder {
    calls: Vec<String>,
    fail_at: Option<usize>,
}

impl Recorder {
    fn failing_at(call: usize) -> Self {
        Recorder { calls: Vec::new(), fail_at: Some(call) }
    }

    fn record(&mut self, call: String) -> Result<(), String> {
        let number = self.calls.len();
        self.calls.push(call);
        if self.fail_at == Some(number) {
            Err(format!("call {} failed", number))
        } else {
            Ok(())
        }
    }
}

impl Observer<i32, String> for Recorder {
    fn on_start(&mut self) -> Result<(), String> {
        self.record(String::from("start"))
    }

    fn on_commit(&mut self) -> Result<(), String> {
        self.record(String::from("commit"))
    }

    fn on_updates<I: Iterator<Item = i32>>(&mut self, updates: I) -> Result<(), String> {
        self.record(format!("updates {:?}", updates.collect::<Vec<i32>>()))
    }

    fn on_completed(&mut self) -> Result<(), String> {
        self.record(String::from("completed"))
    }
}

fn calls(recorder: &SharedObserver<Recorder>) -> Vec<String> {
    recorder.lock().unwrap().calls.clone()
}

fn strings(calls: &[&str]) -> Vec<String> {
    calls.iter().map(|call| call.to_string()).collect()
}

#[test]
fn commit_forwards_one_whole_transaction_in_order() {
    let recorder = SharedObserver::new(Recorder::default());
    let mut cache = CachingObserver::new(recorder.clone());

    assert_eq!(cache.on_start(), Ok(()));
    assert_eq!(cache.on_updates(vec![1, 3, 2].into_iter()), Ok(()));
    assert_eq!(cache.on_updates(Vec::new().into_iter()), Ok(()));
    assert_eq!(cache.on_updates(vec![6, 4, 5].into_iter()), Ok(()));
    assert_eq!(calls(&recorder), Vec::<String>::new());

    assert_eq!(cache.on_commit(), Ok(()));
    assert_eq!(
        calls(&recorder),
        strings(&["start", "updates [1, 3, 2]", "updates []", "updates [6, 4, 5]", "commit"])
    );
}

#[test]
fn commit_of_an_empty_transaction_forwards_start_and_commit() {
    let recorder = SharedObserver::new(Recorder::default());
    let mut cache = CachingObserver::new(recorder.clone());

    assert_eq!(cache.on_start(), Ok(()));
    assert_eq!(cache.on_commit(), Ok(()));
    assert_eq!(calls(&recorder), strings(&["start", "commit"]));
}

#[test]
fn each_transaction_is_forwarded_once() {
    let recorder = SharedObserver::new(Recorder::default());
    let mut cache = CachingObserver::new(recorder.clone());

    assert_eq!(cache.on_start(), Ok(()));
    assert_eq!(cache.on_updates(vec![1].into_iter()), Ok(()));
    assert_eq!(cache.on_commit(), Ok(()));

    assert_eq!(cache.on_start(), Ok(()));
    assert_eq!(calls(&recorder), strings(&["start", "updates [1]", "commit"]));
    assert_eq!(cache.on_updates(vec![2].into_iter()), Ok(()));
    assert_eq!(cache.on_commit(), Ok(()));

    assert_eq!(
        calls(&recorder),
        strings(&["start", "updates [1]", "commit", "start", "updates [2]", "commit"])
    );
}

#[test]
fn failing_start_stops_the_commit() {
    let recorder = SharedObserver::new(Recorder::failing_at(0));
    let mut cache = CachingObserver::new(recorder.clone());

    assert_eq!(cache.on_start(), Ok(()));
    assert_eq!(cache.on_updates(vec![1].into_iter()), Ok(()));
    assert_eq!(cache.on_commit(), Err(String::from("call 0 failed")));
    assert_eq!(calls(&recorder), strings(&["start"]));
}

#[test]
fn failing_batch_stops_the_commit_and_keeps_what_was_sent() {
    let recorder = SharedObserver::new(Recorder::failing_at(2));
    let mut cache = CachingObserver::new(recorder.clone());

    assert_eq!(cache.on_start(), Ok(()));
    assert_eq!(cache.on_updates(vec![1].into_iter()), Ok(()));
    assert_eq!(cache.on_updates(vec![2].into_iter()), Ok(()));
    assert_eq!(cache.on_updates(vec![3].into_iter()), Ok(()));
    assert_eq!(cache.on_commit(), Err(String::from("call 2 failed")));
    assert_eq!(calls(&recorder), strings(&["start", "updates [1]", "updates [2]"]));
}

#[test]
fn failing_commit_is_reported() {
    let recorder = SharedObserver::new(Recorder::failing_at(2));
    let mut cache = CachingObserver::new(recorder.clone());

    assert_eq!(cache.on_start(), Ok(()));
    assert_eq!(cache.on_updates(vec![1].into_iter()), Ok(()));
    assert_eq!(cache.on_commit(), Err(String::from("call 2 failed")));
    assert_eq!(calls(&recorder), strings(&["start", "updates [1]", "commit"]));
}

#[test]
fn failed_commit_closes_the_transaction() {
    let recorder = SharedObserver::new(Recorder::failing_at(1));
    let mut cache = CachingObserver::new(recorder.clone());

    assert_eq!(cache.on_start(), Ok(()));
    assert_eq!(cache.on_updates(vec![1].into_iter()), Ok(()));
    assert_eq!(cache.on_commit(), Err(String::from("call 1 failed")));

    // The batches of the failed transaction are gone: the next one starts empty.
    assert_eq!(cache.on_start(), Ok(()));
    assert_eq!(cache.on_updates(vec![9].into_iter()), Ok(()));
    assert_eq!(cache.on_commit(), Ok(()));
    assert_eq!(
        calls(&recorder),
        strings(&["start", "updates [1]", "start", "updates [9]", "commit"])
    );
}

#[test]
fn completed_is_forwarded_at_once() {
    let recorder = SharedObserver::new(Recorder::default());
    let mut cache = CachingObserver::new(recorder.clone());

    assert_eq!(cache.on_completed(), Ok(()));
    assert_eq!(calls(&recorder), strings(&["completed"]));
}

#[test]
fn completed_leaves_the_open_transaction_alone() {
    let recorder = SharedObserver::new(Recorder::default());
    let mut cache = CachingObserver::new(recorder.clone());

    assert_eq!(cache.on_start(), Ok(()));
    assert_eq!(cache.on_updates(vec![4, 2].into_iter()), Ok(()));
    assert_eq!(cache.on_completed(), Ok(()));
    assert_eq!(calls(&recorder), strings(&["completed"]));

    assert_eq!(cache.on_commit(), Ok(()));
    assert_eq!(calls(&recorder), strings(&["completed", "start", "updates [4, 2]", "commit"]));
}

#[test]
fn failing_completed_is_reported() {
    let recorder = SharedObserver::new(Recorder::failing_at(0));
    let mut cache = CachingObserver::new(recorder.clone());

    assert_eq!(cache.on_completed(), Err(String::from("call 0 failed")));
}

#[test]
fn caching_observers_nest() {
    let recorder = SharedObserver::new(Recorder::default());
    let mut outer = CachingObserver::new(CachingObserver::new(recorder.clone()));

    assert_eq!(outer.on_start(), Ok(()));
    assert_eq!(outer.on_updates(vec![1, 2].into_iter()), Ok(()));
    assert_eq!(outer.on_updates(vec![3].into_iter()), Ok(()));
    assert_eq!(outer.on_commit(), Ok(()));
    assert_eq!(calls(&recorder), strings(&["start", "updates [1, 2]", "updates [3]", "commit"]));
}

#[test]
fn lazy_batch_is_drawn_when_it_arrives() {
    let recorder = SharedObserver::new(Recorder::default());
    let mut cache = CachingObserver::new(recorder.clone());
    let drawn = Cell::new(0);

    assert_eq!(cache.on_start(), Ok(()));
    let lazy = [1, 3, 2].iter().map(|item| {
        drawn.set(drawn.get() + 1);
        item * 2
    });
    assert_eq!(drawn.get(), 0);
    assert_eq!(cache.on_updates(lazy), Ok(()));
    assert_eq!(drawn.get(), 3);
    assert_eq!(calls(&recorder), Vec::<String>::new());

    assert_eq!(cache.on_commit(), Ok(()));
    assert_eq!(drawn.get(), 3);
    assert_eq!(calls(&recorder), strings(&["start", "updates [2, 6, 4]", "commit"]));
}
