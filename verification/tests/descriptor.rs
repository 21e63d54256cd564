use entangled::naming::thread_name;
use entangled::TaskPoolDescriptor;
use entangled::ThreadPoolDescriptor;

#[test]
fn thread_pool_descriptor_defaults() {
    let d = ThreadPoolDescriptor::default();
    assert_eq!(d.num_threads, 2);
    assert_eq!(d.stack_size, 2 * 1024 * 1024);
    assert_eq!(d.thread_name, "Thread pool");
}

#[test]
fn task_pool_descriptor_defaults() {
    let d = TaskPoolDescriptor::default();
    assert_eq!(d.num_threads, 2);
    assert_eq!(d.stack_size, 2048);
    assert_eq!(d.stack_size_in_bytes(), Some(2 * 1024 * 1024));
    assert_eq!(d.thread_name, "Thread pool");
}

#[test]
fn default_thread_names() {
    let d = ThreadPoolDescriptor::default();
    assert_eq!(d.thread_names(), vec!["Thread pool (0)".to_string(), "Thread pool (1)".to_string()]);
    assert_eq!(d.name_of_thread(0), "Thread pool (0)");
}

#[test]
fn custom_thread_names() {
    let d = TaskPoolDescriptor {
        num_threads: 3,
        stack_size: 4096,
        thread_name: "MyThreadPool".to_string(),
    };
    assert_eq!(d.name_of_thread(2), "MyThreadPool (2)");
    let names = d.thread_names();
    assert_eq!(names.len(), 3);
    assert_eq!(names[2], "MyThreadPool (2)");
}

#[test]
fn no_threads_no_names() {
    let d = ThreadPoolDescriptor { num_threads: 0, ..ThreadPoolDescriptor::default() };
    assert!(d.thread_names().is_empty());
}

#[test]
fn thread_name_decimal_index() {
    assert_eq!(thread_name("w", 9), "w (9)");
    assert_eq!(thread_name("w", 10), "w (10)");
    assert_eq!(thread_name("w", 12345), "w (12345)");
    assert_eq!(thread_name("", 0), " (0)");
    assert_eq!(thread_name("big", usize::MAX), format!("big ({})", usize::MAX));
}

#[test]
fn thread_names_are_distinct() {
    let d = ThreadPoolDescriptor { num_threads: 120, ..ThreadPoolDescriptor::default() };
    let names = d.thread_names();
    for i in 0..names.len() {
        for j in (i + 1)..names.len() {
            assert_ne!(names[i], names[j]);
        }
    }
}

#[test]
fn task_pool_stack_size_in_bytes() {
    let mut d = TaskPoolDescriptor::default();
    d.stack_size = 0;
    assert_eq!(d.stack_size_in_bytes(), Some(0));
    d.stack_size = 3;
    assert_eq!(d.stack_size_in_bytes(), Some(3072));
    d.stack_size = usize::MAX / 1024;
    assert_eq!(d.stack_size_in_bytes(), Some((usize::MAX / 1024) * 1024));
    d.stack_size = usize::MAX / 1024 + 1;
    assert_eq!(d.stack_size_in_bytes(), None);
}
