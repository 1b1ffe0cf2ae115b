use config_cache::{
    CacheData, ConfigChangeListener, ConfigResp, ConfigResponse, FilterStep, ListenerHandle,
    NotifyStep,
};
use std::sync::atomic::{AtomicUsize, Ordering};
use std::sync::{Arc, Mutex};

struct TestConfigChangeListener1;
struct TestConfigChangeListener2;

impl ConfigChangeListener for TestConfigChangeListener1 {
    fn notify(&self, config_resp: ConfigResponse) {
        println!("TestConfigChangeListener1 listen the config={:?}", config_resp);
    }
}

impl ConfigChangeListener for TestConfigChangeListener2 {
    fn notify(&self, config_resp: ConfigResponse) {
        println!("TestConfigChangeListener2 listen the config={:?}", config_resp);
    }
}

/// Remembers every response it was handed.
struct Recorder {
    seen: Mutex<Vec<ConfigResponse>>,
}

impl Recorder {
    fn new() -> Arc<Self> {
        Arc::new(Recorder { seen: Mutex::new(Vec::new()) })
    }
}

impl ConfigChangeListener for Recorder {
    fn notify(&self, config_resp: ConfigResponse) {
        self.seen.lock().expect("mutex should not be poisoned").push(config_resp);
    }
}

/// A filter that is known by its name alone; the test plays its part.
type Named = &'static str;

fn handle<T: ConfigChangeListener + 'static>(listener: &Arc<T>) -> ListenerHandle {
    let listener: Arc<dyn ConfigChangeListener> = listener.clone();
    ListenerHandle::new(listener)
}

fn entry(filters: Vec<Named>) -> CacheData<Named> {
    CacheData::new(Arc::new(filters), "D".to_string(), "G".to_string(), "N".to_string())
}

fn response(md5: &str) -> ConfigResponse {
    ConfigResponse::new(
        "D".to_string(),
        "G".to_string(),
        "N".to_string(),
        "c".to_string(),
        "text".to_string(),
        md5.to_string(),
    )
}

fn last_md5s(data: &CacheData<Named>) -> Vec<String> {
    data.listeners.entries().iter().map(|e| e.last_md5.clone()).collect()
}

/// Which of `listeners` is registered at each place.
fn order(data: &CacheData<Named>, listeners: &[Arc<Recorder>]) -> Vec<usize> {
    let mut places = Vec::new();
    for e in data.listeners.entries() {
        let target = e.listener.target();
        let place = listeners.iter().position(|l| {
            let l: Arc<dyn ConfigChangeListener> = l.clone();
            Arc::ptr_eq(&l, &target)
        });
        places.push(place.expect("only these have been registered"));
    }
    places
}

fn deliver(data: &mut CacheData<Named>, config_resp: ConfigResponse) -> usize {
    let notifications = data.dispatch_notify(config_resp);
    let n = notifications.len();
    for notification in notifications {
        notification.listener.target().notify(notification.config_resp);
    }
    n
}

#[test]
fn test_cache_data_add_listener() {
    let (d, g, n) = ("D".to_string(), "G".to_string(), "N".to_string());

    let mut cache_data: CacheData<Named> = CacheData::new(Arc::new(Vec::new()), d, g, n);

    // test add listener1
    let lis1_arc = Arc::new(TestConfigChangeListener1 {});
    cache_data.add_listener(ListenerHandle::new(lis1_arc));

    // test add listener2
    let lis2_arc = Arc::new(TestConfigChangeListener2 {});
    cache_data.add_listener(ListenerHandle::new(lis2_arc.clone()));
    // test add a listener2 again
    cache_data.add_listener(ListenerHandle::new(lis2_arc));

    assert_eq!(2, cache_data.listeners.entries().len());
}

#[test]
fn test_cache_data_add_listener_then_remove() {
    let (d, g, n) = ("D".to_string(), "G".to_string(), "N".to_string());

    let mut cache_data: CacheData<Named> = CacheData::new(Arc::new(Vec::new()), d, g, n);

    // test add listener1
    let lis1_arc = Arc::new(TestConfigChangeListener1 {});
    let lis1_arc2 = Arc::clone(&lis1_arc);
    cache_data.add_listener(ListenerHandle::new(lis1_arc));

    // test add listener2
    let lis2_arc = Arc::new(TestConfigChangeListener2 {});
    let lis2_arc2 = Arc::clone(&lis2_arc);
    cache_data.add_listener(ListenerHandle::new(lis2_arc));
    assert_eq!(2, cache_data.listeners.entries().len());

    cache_data.remove_listener(ListenerHandle::new(lis1_arc2));
    assert_eq!(1, cache_data.listeners.entries().len());

    cache_data.remove_listener(ListenerHandle::new(lis2_arc2));
    assert_eq!(0, cache_data.listeners.entries().len());
}

#[test]
fn new_entry_is_initializing_text() {
    let data = entry(vec!["a"]);
    assert_eq!(
        ("D", "G", "N", "text"),
        (
            data.data_id.as_str(),
            data.group.as_str(),
            data.namespace.as_str(),
            data.content_type.as_str()
        )
    );
    assert_eq!(
        ("", "", "", 0),
        (
            data.content.as_str(),
            data.md5.as_str(),
            data.encrypted_data_key.as_str(),
            data.last_modified
        )
    );
    assert!(data.initializing);
    assert!(data.listeners.entries().is_empty());
    assert_eq!(vec!["a"], *data.config_filters);
}

#[test]
fn default_entry_is_blank() {
    let data: CacheData<Named> = CacheData::default();
    assert_eq!("", data.data_id);
    assert_eq!("", data.content_type);
    assert_eq!(0, data.last_modified);
    assert!(!data.initializing);
    assert!(data.listeners.entries().is_empty());
    assert!(data.config_filters.is_empty());
}

#[test]
fn listeners_of_one_type_are_told_apart() {
    let mut data = entry(vec![]);
    let first = Arc::new(TestConfigChangeListener1 {});
    let second = Arc::new(TestConfigChangeListener1 {});
    data.add_listener(handle(&first));
    data.add_listener(handle(&second));
    assert_eq!(2, data.listeners.entries().len());

    // A handle's clone is a handle of the same listener.
    let again = data.listeners.entries()[0].listener.clone();
    data.add_listener(again);
    assert_eq!(2, data.listeners.entries().len());
    assert_eq!(Some(0), data.listeners.index_of_listener(&handle(&first)));
    assert_eq!(Some(1), data.listeners.index_of_listener(&handle(&second)));
    let third = Arc::new(TestConfigChangeListener1 {});
    assert_eq!(None, data.listeners.index_of_listener(&handle(&third)));
}

#[test]
fn removing_moves_the_last_listener_into_the_gap() {
    let listeners = [Recorder::new(), Recorder::new(), Recorder::new(), Recorder::new()];
    let mut data = entry(vec![]);
    for l in &listeners {
        data.add_listener(handle(l));
    }
    assert_eq!(vec![0, 1, 2, 3], order(&data, &listeners));
    data.remove_listener(handle(&listeners[1]));
    assert_eq!(vec![0, 3, 2], order(&data, &listeners));
    // Removing it again changes nothing.
    data.remove_listener(handle(&listeners[1]));
    assert_eq!(vec![0, 3, 2], order(&data, &listeners));
    // Removing the one that was added last gives the table back.
    data.add_listener(handle(&listeners[1]));
    assert_eq!(vec![0, 3, 2, 1], order(&data, &listeners));
    data.remove_listener(handle(&listeners[1]));
    assert_eq!(vec![0, 3, 2], order(&data, &listeners));
}

#[test]
fn a_change_is_announced_once() {
    let listeners = [Recorder::new(), Recorder::new()];
    let mut data = entry(vec![]);
    for l in &listeners {
        data.add_listener(handle(l));
    }
    data.md5 = "m1".to_string();
    assert_eq!(2, deliver(&mut data, response("m1")));
    assert_eq!(vec!["m1", "m1"], last_md5s(&data));
    assert_eq!(0, deliver(&mut data, response("m1")));

    data.md5 = "m2".to_string();
    assert_eq!(2, deliver(&mut data, response("m2")));
    for l in &listeners {
        let seen = l.seen.lock().expect("mutex should not be poisoned");
        let md5s: Vec<&str> = seen.iter().map(|r| r.md5.as_str()).collect();
        assert_eq!(vec!["m1", "m2"], md5s);
        assert_eq!("c", seen[0].content);
        assert_eq!("D", seen[0].data_id);
        assert_eq!("G", seen[0].group);
        assert_eq!("N", seen[0].namespace);
        assert_eq!("text", seen[0].content_type);
    }
}

#[test]
fn only_listeners_that_are_behind_are_notified() {
    let listeners = [Recorder::new(), Recorder::new()];
    let mut data = entry(vec![]);
    data.md5 = "m1".to_string();
    data.add_listener(handle(&listeners[0]));
    assert_eq!(1, deliver(&mut data, response("m1")));
    data.add_listener(handle(&listeners[1]));
    // Adding a registered listener again does not make it new.
    data.add_listener(handle(&listeners[0]));
    assert_eq!(vec!["m1", ""], last_md5s(&data));
    assert_eq!(1, deliver(&mut data, response("m1")));
    assert_eq!(1, listeners[0].seen.lock().expect("mutex should not be poisoned").len());
    assert_eq!(1, listeners[1].seen.lock().expect("mutex should not be poisoned").len());

    // Taking it out and adding it again does.
    data.remove_listener(handle(&listeners[0]));
    data.add_listener(handle(&listeners[0]));
    assert_eq!(vec!["m1", ""], last_md5s(&data));
    assert_eq!(1, deliver(&mut data, response("m1")));
    assert_eq!(2, listeners[0].seen.lock().expect("mutex should not be poisoned").len());
}

#[test]
fn without_md5_nobody_is_notified() {
    let listener = Recorder::new();
    let mut data = entry(vec![]);
    data.add_listener(handle(&listener));
    assert_eq!(0, deliver(&mut data, response("")));
    assert_eq!(vec![""], last_md5s(&data));
}

#[test]
fn without_filters_the_response_is_the_entry() {
    let mut data = entry(vec![]);
    data.content = "c".to_string();
    data.md5 = "m1".to_string();
    data.encrypted_data_key = "k".to_string();
    match data.get_config_resp_after_filter() {
        FilterStep::Done(r) => {
            assert_eq!(("D", "G", "N"), (r.data_id.as_str(), r.group.as_str(), r.namespace.as_str()));
            assert_eq!(
                ("c", "text", "m1"),
                (r.content.as_str(), r.content_type.as_str(), r.md5.as_str())
            );
        }
        FilterStep::Apply { .. } => panic!("there is no filter"),
    }
}

#[test]
fn filters_run_in_order_each_on_the_outcome_of_the_one_before() {
    let mut data = entry(vec!["a", "b", "c"]);
    data.content = "x".to_string();
    data.encrypted_data_key = "k".to_string();
    data.content_type = "json".to_string();
    data.md5 = "m1".to_string();
    let mut step = CacheData::<Named>::filtered_response(data.resp_snapshot());
    let mut asked = Vec::new();
    let r = loop {
        match step {
            FilterStep::Apply { index, conf_resp, run } => {
                asked.push(index);
                assert_eq!("k", conf_resp.encrypted_data_key);
                let content = format!("{}{}", conf_resp.content, run.filters[index]);
                step = run.resume(ConfigResp { content, ..conf_resp });
            }
            FilterStep::Done(r) => break r,
        }
    };
    assert_eq!(vec![0, 1, 2], asked);
    assert_eq!("xabc", r.content);
    assert_eq!("json", r.content_type);
    assert_eq!("m1", r.md5);
}

#[test]
fn a_filter_may_rename_the_configuration() {
    let data = entry(vec!["a"]);
    match data.get_config_resp_after_filter() {
        FilterStep::Apply { index, run, .. } => {
            assert_eq!(0, index);
            let renamed = ConfigResp::new(
                "D2".to_string(),
                "G2".to_string(),
                "N2".to_string(),
                "c2".to_string(),
                "k2".to_string(),
            );
            match run.resume(renamed) {
                FilterStep::Done(r) => {
                    assert_eq!(
                        ("D2", "G2", "N2", "c2"),
                        (
                            r.data_id.as_str(),
                            r.group.as_str(),
                            r.namespace.as_str(),
                            r.content.as_str()
                        )
                    );
                    assert_eq!(("text", ""), (r.content_type.as_str(), r.md5.as_str()));
                }
                FilterStep::Apply { .. } => panic!("there is one filter"),
            }
        }
        FilterStep::Done(_) => panic!("there is a filter"),
    }
}

#[test]
fn entry_stays_writable_while_a_filter_runs() {
    struct CountingListener {
        hits: AtomicUsize,
    }
    impl ConfigChangeListener for CountingListener {
        fn notify(&self, _: ConfigResponse) {
            self.hits.fetch_add(1, Ordering::SeqCst);
        }
    }
    let listener = Arc::new(CountingListener { hits: AtomicUsize::new(0) });
    let mut data: CacheData<Named> = CacheData::new(
        Arc::new(vec!["blocking"]),
        "D".to_string(),
        "G".to_string(),
        "test-ns".to_string(),
    );
    data.content = "c".to_string();
    data.md5 = "m1".to_string();
    data.initializing = false;
    data.add_listener(handle(&listener));

    let step = CacheData::<Named>::filtered_response(data.resp_snapshot());
    let (conf_resp, run) = match step {
        FilterStep::Apply { conf_resp, run, .. } => (conf_resp, run),
        FilterStep::Done(_) => panic!("there is a filter"),
    };
    // The filter is in flight.
    data.last_modified = 42;
    match run.resume(conf_resp) {
        FilterStep::Done(config_resp) => {
            assert_eq!("test-ns", config_resp.namespace);
            assert_eq!(1, deliver(&mut data, config_resp));
        }
        FilterStep::Apply { .. } => panic!("there is one filter"),
    }
    assert_eq!(1, listener.hits.load(Ordering::SeqCst));
    assert_eq!("m1", data.listeners.entries()[0].last_md5);
    assert_eq!(42, data.last_modified);
}

#[test]
fn snapshot_keeps_what_it_saw() {
    let mut data = entry(vec!["a"]);
    data.content = "old".to_string();
    data.md5 = "m1".to_string();
    let (filters, conf_resp, content_type, md5) = data.resp_snapshot();
    data.content = "new".to_string();
    data.md5 = "m2".to_string();
    assert!(Arc::ptr_eq(&filters, &data.config_filters));
    assert_eq!("old", conf_resp.content);
    assert_eq!(("D", "G", "N"), (
        conf_resp.data_id.as_str(),
        conf_resp.group.as_str(),
        conf_resp.namespace.as_str()
    ));
    assert_eq!(("text", "m1"), (content_type.as_str(), md5.as_str()));
}

#[test]
fn notify_listener_filters_first_and_delivers_then() {
    let listener = Recorder::new();
    let mut data = entry(vec!["a"]);
    data.content = "x".to_string();
    data.md5 = "m1".to_string();
    data.add_listener(handle(&listener));
    let step = data.get_config_resp_after_filter();
    let step = match data.notify_listener(step) {
        NotifyStep::Filter { index, conf_resp, run } => {
            assert_eq!(0, index);
            assert_eq!(vec![""], last_md5s(&data));
            run.resume(ConfigResp { content: "y".to_string(), ..conf_resp })
        }
        NotifyStep::Deliver(_) => panic!("the filter has not been run"),
    };
    match data.notify_listener(step) {
        NotifyStep::Deliver(notifications) => {
            assert_eq!(1, notifications.len());
            assert_eq!("y", notifications[0].config_resp.content);
            assert_eq!("m1", notifications[0].config_resp.md5);
        }
        NotifyStep::Filter { .. } => panic!("there is one filter"),
    }
    assert_eq!(vec!["m1"], last_md5s(&data));
}

#[test]
fn short_content_is_shown_whole() {
    let mut data = entry(vec![]);
    data.md5 = "m".to_string();
    data.encrypted_data_key = "k".to_string();
    data.content = "012345678901234567890123456789".to_string();
    assert_eq!(
        "CacheData(namespace=N,data_id=D,group=G,md5=m,encrypted_data_key=k,content_type=text,\
         content=012345678901234567890123456789)",
        data.to_display_string()
    );
}

#[test]
fn long_content_is_cut() {
    let mut data = entry(vec![]);
    data.content = "0123456789012345678901234567890".to_string();
    assert_eq!(
        "CacheData(namespace=N,data_id=D,group=G,md5=,encrypted_data_key=,content_type=text,\
         content=012345678901234567890123456789...)",
        data.to_display_string()
    );
}

#[test]
fn content_is_cut_by_characters_not_bytes() {
    let mut data = entry(vec![]);
    data.content = "\u{914d}".repeat(30);
    assert!(data.to_display_string().ends_with(&format!("content={})", "\u{914d}".repeat(30))));
    data.content = "\u{914d}".repeat(31);
    assert!(data.to_display_string().ends_with(&format!("content={}...)", "\u{914d}".repeat(30))));
}
