//! End-to-end: a real shell session feeding the grid through the
//! session queue and the escape-sequence engine.

use portable_pty::{native_pty_system, CommandBuilder, PtySize};
use std::io::{Read, Write};
use std::time::{Duration, Instant};
use term_render::pty::PtySession;
use term_render::terminal::TerminalState;

#[test]
fn test_shell_echo_reaches_grid() {
    let pty_system = native_pty_system();
    let pair = pty_system
        .openpty(PtySize { rows: 30, cols: 120, pixel_width: 0, pixel_height: 0 })
        .expect("PTY allocation should succeed");
    let mut cmd = CommandBuilder::new("/bin/sh");
    cmd.env("TERM", "xterm-256color");
    let mut child = pair.slave.spawn_command(cmd).expect("shell should spawn");
    let mut reader = pair.master.try_clone_reader().expect("reader");
    let mut writer = pair.master.take_writer().expect("writer");

    let mut session = PtySession::new();
    session.start();
    let mut term = TerminalState::new();

    writer.write_all(b"echo hi\n").expect("write should succeed");
    writer.flush().expect("flush should succeed");

    let deadline = Instant::now() + Duration::from_secs(10);
    let mut buf = [0u8; 4096];
    let mut found = false;
    while Instant::now() < deadline {
        let n = match reader.read(&mut buf) {
            Ok(0) => break,
            Ok(n) => n,
            Err(_) => break,
        };
        session.push_chunk(buf[..n].to_vec());
        for chunk in session.poll() {
            term.process_bytes(&chunk);
        }
        if term.get_visible_text().contains("hi") {
            found = true;
            break;
        }
    }
    assert!(found, "the echoed text should appear in the grid within the timeout");
    let _ = child.kill();
    let _ = child.wait();
}
