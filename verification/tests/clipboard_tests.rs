use voice2prompt::clipboard::{after_attempt, first_backend, ClipboardBackend, ClipboardNext};

fn run(works: [bool; 3]) -> (bool, Vec<ClipboardBackend>) {
    let mut tried = Vec::new();
    let mut b = first_backend();
    loop {
        tried.push(b);
        let ok = match b {
            ClipboardBackend::WlCopy => works[0],
            ClipboardBackend::Native => works[1],
            ClipboardBackend::Xclip => works[2],
        };
        match after_attempt(b, ok) {
            ClipboardNext::Copied => return (true, tried),
            ClipboardNext::Try(next) => b = next,
            ClipboardNext::Failed => return (false, tried),
        }
    }
}

#[test]
fn wl_copy_is_tried_first() {
    assert_eq!(first_backend(), ClipboardBackend::WlCopy);
    assert_eq!(run([true, true, true]), (true, vec![ClipboardBackend::WlCopy]));
}

#[test]
fn falls_back_in_order() {
    assert_eq!(run([false, true, false]), (true, vec![ClipboardBackend::WlCopy, ClipboardBackend::Native]));
    assert_eq!(
        run([false, false, true]),
        (true, vec![ClipboardBackend::WlCopy, ClipboardBackend::Native, ClipboardBackend::Xclip])
    );
}

#[test]
fn fails_when_every_backend_fails() {
    assert_eq!(
        run([false, false, false]),
        (false, vec![ClipboardBackend::WlCopy, ClipboardBackend::Native, ClipboardBackend::Xclip])
    );
    assert_eq!(after_attempt(ClipboardBackend::Xclip, false), ClipboardNext::Failed);
}
