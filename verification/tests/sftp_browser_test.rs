use lazyssh::config::models::{Auth, Server};
use lazyssh::tui::app::{App, Effect, Outcome};
use lazyssh::tui::handlers::complete_effect;
use lazyssh::tui::sftp_browser::{format_size, remote_parent_path, SftpState, TransferProgress};

fn test_server() -> Server {
    Server {
        name: "test".into(),
        host: "test".into(),
        port: 22,
        user: "user".into(),
        auth: Auth::Key {
            path: "~/.ssh/id_rsa".into(),
            passphrase: None,
        },
        tags: vec![],
        pinned: false,
        last_connected: None,
        connection_count: 0,
            bookmarks: vec![],
            agent_forwarding: false,
            proxy_jump: None,
    }
}

// --- TransferProgress ---

#[test]
fn test_transfer_progress_percentage_partial() {
    let p = TransferProgress {
        file_name: "f.txt".into(),
        bytes_done: 50,
        bytes_total: 100,
        is_upload: true,
        start_time: std::time::Instant::now(),
    };
    assert_eq!(p.percentage(), 50);
    assert!(!p.is_complete());
}

#[test]
fn test_transfer_progress_percentage_zero_total() {
    let p = TransferProgress {
        file_name: "f.txt".into(),
        bytes_done: 0,
        bytes_total: 0,
        is_upload: true,
        start_time: std::time::Instant::now(),
    };
    assert_eq!(p.percentage(), 0);
    assert!(p.is_complete());
}

#[test]
fn test_transfer_progress_complete() {
    let p = TransferProgress {
        file_name: "f.txt".into(),
        bytes_done: 100,
        bytes_total: 100,
        is_upload: false,
        start_time: std::time::Instant::now(),
    };
    assert_eq!(p.percentage(), 100);
    assert!(p.is_complete());
}

#[test]
fn test_transfer_progress_is_upload() {
    let up = TransferProgress {
        file_name: "up".into(),
        bytes_done: 0,
        bytes_total: 10,
        is_upload: true,
        start_time: std::time::Instant::now(),
    };
    assert!(up.is_upload);
    let down = TransferProgress {
        file_name: "down".into(),
        bytes_done: 0,
        bytes_total: 10,
        is_upload: false,
        start_time: std::time::Instant::now(),
    };
    assert!(!down.is_upload);
}

// --- SftpState ---

#[test]
fn test_sftp_state_new() {
    let state = SftpState::new(test_server());
    assert_eq!(state.remote_path, "/home/user");
    assert_eq!(state.focus_side, lazyssh::tui::sftp_browser::Side::Local);
    assert_eq!(state.status, "Conectando...");
    assert!(state.remote_files.is_empty());
    assert!(!state.is_transferring);
}

#[test]
fn test_sftp_state_refresh_remote() {
    let mut state = SftpState::new(test_server());
    let files = vec![
        lazyssh::sftp::FileInfo {
            name: "a".into(),
            is_dir: true,
        permissions: None,
            size: 0,
        },
        lazyssh::sftp::FileInfo {
            name: "b".into(),
            is_dir: false,
        permissions: None,
            size: 100,
        },
    ];
    state.refresh_remote(files);
    assert_eq!(state.remote_files.len(), 2);
    assert_eq!(state.remote_selected, 0);
}

#[test]
fn test_sftp_state_next_item_local() {
    let mut state = SftpState::new(test_server());
    state.local_files = vec![
        lazyssh::sftp::FileInfo {
            name: "a".into(),
            is_dir: false,
        permissions: None,
            size: 0,
        },
        lazyssh::sftp::FileInfo {
            name: "b".into(),
            is_dir: false,
        permissions: None,
            size: 0,
        },
    ];
    state.next_item();
    assert_eq!(state.local_selected, 1);
    state.next_item();
    assert_eq!(state.local_selected, 1, "should not go past last");
}

#[test]
fn test_sftp_state_next_item_remote() {
    let mut state = SftpState::new(test_server());
    state.focus_side = lazyssh::tui::sftp_browser::Side::Remote;
    state.remote_files = vec![
        lazyssh::sftp::FileInfo {
            name: "x".into(),
            is_dir: false,
        permissions: None,
            size: 0,
        },
        lazyssh::sftp::FileInfo {
            name: "y".into(),
            is_dir: false,
        permissions: None,
            size: 0,
        },
    ];
    state.next_item();
    assert_eq!(state.remote_selected, 1);
}

#[test]
fn test_sftp_state_previous_item() {
    let mut state = SftpState::new(test_server());
    state.local_files = vec![
        lazyssh::sftp::FileInfo {
            name: "a".into(),
            is_dir: false,
        permissions: None,
            size: 0,
        },
        lazyssh::sftp::FileInfo {
            name: "b".into(),
            is_dir: false,
        permissions: None,
            size: 0,
        },
    ];
    state.local_selected = 1;
    state.previous_item();
    assert_eq!(state.local_selected, 0);
    state.previous_item();
    assert_eq!(state.local_selected, 0, "should not go below 0");
}

#[test]
fn test_sftp_state_enter_remote_returns_path() {
    let mut state = SftpState::new(test_server());
    state.focus_side = lazyssh::tui::sftp_browser::Side::Remote;
    state.remote_files = vec![lazyssh::sftp::FileInfo {
        name: "subdir".into(),
        is_dir: true,
        permissions: None,
        size: 0,
    }];
    state.remote_selected = 0;

    let result = state.enter_directory();
    assert!(result.is_ok());
    assert_eq!(state.remote_path, "/home/user/subdir");
}

#[test]
fn test_sftp_state_go_parent_remote_root() {
    let mut state = SftpState::new(test_server());
    state.focus_side = lazyssh::tui::sftp_browser::Side::Remote;
    state.remote_path = "/".to_string();
    let result = state.go_parent();
    assert!(result.is_ok());
    assert_eq!(state.remote_path, "/");
}

#[test]
fn test_sftp_state_go_parent_remote_subdir() {
    let mut state = SftpState::new(test_server());
    state.focus_side = lazyssh::tui::sftp_browser::Side::Remote;
    state.remote_path = "/home/user/docs".to_string();
    state.go_parent().unwrap();
    assert_eq!(state.remote_path, "/home/user");
}

#[test]
fn test_sftp_state_toggle_focus() {
    let mut state = SftpState::new(test_server());
    assert_eq!(
        state.focus_side,
        lazyssh::tui::sftp_browser::Side::Local
    );
    state.toggle_focus();
    assert_eq!(
        state.focus_side,
        lazyssh::tui::sftp_browser::Side::Remote
    );
    state.toggle_focus();
    assert_eq!(
        state.focus_side,
        lazyssh::tui::sftp_browser::Side::Local
    );
}

#[test]
fn test_sftp_state_toggle_select_current() {
    let mut state = SftpState::new(test_server());
    state.local_files = vec![
        lazyssh::sftp::FileInfo {
            name: "a".into(),
            is_dir: false,
        permissions: None,
            size: 0,
        },
        lazyssh::sftp::FileInfo {
            name: "b".into(),
            is_dir: false,
        permissions: None,
            size: 0,
        },
    ];
    state.toggle_select_current();
    assert_eq!(state.local_selected_files.len(), 1);
    assert!(state.local_selected_files.contains(&0));

    state.toggle_select_current();
    assert!(state.local_selected_files.is_empty());
}

#[test]
fn test_sftp_state_select_all_local() {
    let mut state = SftpState::new(test_server());
    state.local_files = vec![
        lazyssh::sftp::FileInfo {
            name: "a".into(),
            is_dir: false,
        permissions: None,
            size: 0,
        },
        lazyssh::sftp::FileInfo {
            name: "b".into(),
            is_dir: false,
        permissions: None,
            size: 0,
        },
        lazyssh::sftp::FileInfo {
            name: "c".into(),
            is_dir: false,
        permissions: None,
            size: 0,
        },
    ];
    state.select_all_current();
    assert_eq!(state.local_selected_files.len(), 3);
}

#[test]
fn test_sftp_state_select_all_remote() {
    let mut state = SftpState::new(test_server());
    state.focus_side = lazyssh::tui::sftp_browser::Side::Remote;
    state.remote_files = vec![lazyssh::sftp::FileInfo {
        name: "x".into(),
        is_dir: false,
        permissions: None,
        size: 0,
    }];
    state.select_all_current();
    assert_eq!(state.remote_selected_files.len(), 1);
}

#[test]
fn test_sftp_state_clear_selection() {
    let mut state = SftpState::new(test_server());
    state.local_selected_files = vec![0, 1, 2];
    state.clear_selection();
    assert!(state.local_selected_files.is_empty());
}

#[test]
fn test_sftp_state_get_selected_files() {
    let mut state = SftpState::new(test_server());
    state.local_files = vec![
        lazyssh::sftp::FileInfo {
            name: "a".into(),
            is_dir: false,
        permissions: None,
            size: 1,
        },
        lazyssh::sftp::FileInfo {
            name: "b".into(),
            is_dir: false,
        permissions: None,
            size: 2,
        },
    ];
    state.local_selected_files = vec![0, 1];
    let selected = state.get_selected_files();
    assert_eq!(selected.len(), 2);
    assert_eq!(selected[0].size, 1);
    assert_eq!(selected[1].size, 2);
}

#[test]
fn test_sftp_state_transfer_lifecycle() {
    let mut state = SftpState::new(test_server());
    state.start_transfer("file.bin".into(), 1000, true);
    assert!(state.is_transferring);
    assert_eq!(
        state.transfer_progress.as_ref().unwrap().percentage(),
        0
    );

    state.update_transfer_progress(500);
    assert!(state.is_transferring);
    assert_eq!(
        state.transfer_progress.as_ref().unwrap().percentage(),
        50
    );

    state.update_transfer_progress(1000);
    assert!(
        !state.is_transferring,
        "complete transfer should clear is_transferring"
    );

    state.finish_transfer();
    assert!(state.transfer_progress.is_none());
    assert!(state.local_selected_files.is_empty());
}

#[test]
fn test_sftp_state_next_item_empty_no_crash() {
    let mut state = SftpState::new(test_server());
    state.local_files = vec![];
    state.next_item();
    assert_eq!(state.local_selected, 0);
}

#[test]
fn test_sftp_state_previous_item_empty_no_crash() {
    let mut state = SftpState::new(test_server());
    state.local_files = vec![];
    state.previous_item();
    assert_eq!(state.local_selected, 0);
}

// --- format_size ---

#[test]
fn test_format_size_bytes() {
    assert_eq!(format_size(0), "0B");
    assert_eq!(format_size(512), "512B");
    assert_eq!(format_size(1023), "1023B");
}

#[test]
fn test_format_size_kilobytes() {
    assert_eq!(format_size(1024), "1.0K");
    assert_eq!(format_size(1536), "1.5K");
    assert_eq!(format_size(1024 * 1023), "1023.0K");
}

#[test]
fn test_format_size_megabytes() {
    assert_eq!(format_size(1024 * 1024), "1.0M");
    assert_eq!(format_size(2 * 1024 * 1024), "2.0M");
}

#[test]
fn test_format_size_gigabytes() {
    let gb = 1024u64 * 1024 * 1024;
    assert_eq!(format_size(gb), "1.0G");
    assert_eq!(format_size(3 * gb), "3.0G");
}

#[test]
fn test_sftp_state_enter_local_dir() {
    let mut state = SftpState::new(test_server());
    state.local_files = vec![lazyssh::sftp::FileInfo {
        name: "file.txt".into(),
        is_dir: false,
        permissions: None,
        size: 4,
    }];
    let result = state.enter_directory();
    assert!(result.is_err(), "Entering a file should fail");
}

#[test]
fn test_sftp_state_go_parent_local() {
    let dir = tempfile::TempDir::new().unwrap();
    let here = dir.path().to_string_lossy().to_string();
    let mut app = App::new(vec![]);
    let mut state = SftpState::new(test_server());
    state.local.current_dir = here.clone();
    let asked = state.go_parent().unwrap();
    assert_eq!(asked.as_deref(), Some(".."));
    app.sftp_state = Some(state);
    let parent = dir.path().parent().unwrap().to_string_lossy().to_string();
    let next = complete_effect(&mut app, Effect::EnterLocalDir { name: "..".into() }, Outcome::Moved(Ok(parent.clone())));
    assert!(matches!(next, Some(Effect::ListLocal { then: None })));
    assert_ne!(app.sftp_state.as_ref().unwrap().local.current_dir(), here.as_str());
    assert_eq!(app.sftp_state.as_ref().unwrap().local.current_dir(), parent.as_str());
}

#[test]
fn format_size_matches_float_formatting() {
    for &size in &[1280u64, 1100, 1126, 5_000_000, 123_456_789, 9_007_199_254_740_993, u64::MAX] {
        let expected = {
            let s = size as f64;
            if size < 1024 {
                format!("{}B", size)
            } else if s < 1024.0 * 1024.0 {
                format!("{:.1}K", s / 1024.0)
            } else if s < 1024.0 * 1024.0 * 1024.0 {
                format!("{:.1}M", s / (1024.0 * 1024.0))
            } else {
                format!("{:.1}G", s / (1024.0 * 1024.0 * 1024.0))
            }
        };
        assert_eq!(format_size(size), expected, "size {}", size);
    }
}

#[test]
fn remote_parent_paths() {
    assert_eq!(remote_parent_path("/home/user/docs/"), "/home/user");
    assert_eq!(remote_parent_path("/etc"), "/");
    assert_eq!(remote_parent_path("/"), "/");
    assert_eq!(remote_parent_path("relative"), "/");
}

#[test]
fn marking_twice_unmarks() {
    let mut state = SftpState::new(test_server());
    state.focus_side = lazyssh::tui::sftp_browser::Side::Remote;
    state.remote_files = vec![lazyssh::sftp::FileInfo { name: "x".into(), is_dir: false, permissions: None, size: 3 }];
    state.remote_selected_files = vec![5];
    state.toggle_select_current();
    assert_eq!(state.remote_selected_files, vec![5, 0]);
    state.toggle_select_current();
    assert_eq!(state.remote_selected_files, vec![5]);
}

#[test]
fn transfer_eta_from_elapsed_time() {
    let p = TransferProgress { file_name: "f".into(), bytes_done: 250, bytes_total: 1000, is_upload: true, start_time: std::time::Instant::now() };
    assert_eq!(p.eta_secs_after(1_000_000_000), Some(3));
    assert_eq!(p.percentage(), 25);
}

#[test]
fn percentage_stays_within_bounds() {
    let mut p = TransferProgress {
        file_name: "f".to_string(),
        bytes_done: 1,
        bytes_total: 3,
        is_upload: true,
        start_time: std::time::Instant::now(),
    };
    assert_eq!(p.percentage(), 33);
    p.bytes_done = 3;
    assert_eq!(p.percentage(), 100);
    assert!(p.is_complete());
}

fn progress(done: u64, total: u64) -> TransferProgress {
    TransferProgress {
        file_name: "f".to_string(),
        bytes_done: done,
        bytes_total: total,
        is_upload: false,
        start_time: std::time::Instant::now(),
    }
}

/// The estimate as computed in doubles from the elapsed time.
fn eta_in_doubles(done: u64, total: u64, nanos: u64) -> Option<u64> {
    if done == 0 || total == 0 {
        return None;
    }
    let elapsed = std::time::Duration::from_nanos(nanos).as_secs_f64();
    if elapsed < 0.1 {
        return None;
    }
    let rate = done as f64 / elapsed;
    if rate <= 0.0 {
        return None;
    }
    let remaining = (total - done) as f64 / rate;
    Some(remaining as u64)
}

#[test]
fn eta_rounds_like_doubles() {
    assert_eq!(progress(1, 21).eta_secs_after(1_150_000_000), Some(22));
    assert_eq!(progress(1, 21).eta_secs_after(1_150_000_000), eta_in_doubles(1, 21, 1_150_000_000));
}

#[test]
fn eta_threshold_is_a_tenth_of_a_second() {
    assert_eq!(progress(5, 10).eta_secs_after(99_999_999), None);
    assert_eq!(progress(5, 10).eta_secs_after(100_000_000), Some(0));
    assert_eq!(progress(5, 10).eta_secs_after(0), None);
    assert_eq!(progress(10, 10).eta_secs_after(5_000_000_000), Some(0));
    assert_eq!(progress(1, u64::MAX).eta_secs_after(u64::MAX as u128), Some(u64::MAX));
}

#[test]
fn eta_agrees_with_doubles_on_many_inputs() {
    let mut x: u64 = 0x9E37_79B9_7F4A_7C15;
    let mut next = || {
        x ^= x << 13;
        x ^= x >> 7;
        x ^= x << 17;
        x
    };
    for i in 0..20_000u32 {
        let a = next();
        let b = next();
        let c = next();
        let (done, total, nanos) = match i % 4 {
            0 => {
                let total = a % 1_000_000 + 1;
                (b % total + 1, total, c % 50_000_000_000)
            }
            1 => {
                let total = a >> (b % 64);
                (if total == 0 { 0 } else { b % total + 1 }, total, c >> (a % 64))
            }
            2 => (1 + b % 3, 1 + b % 3 + a % 100, 100_000_000 + c % 1000),
            _ => {
                let total = a | 1;
                (total >> (c % 64), total, b)
            }
        };
        let done = done.min(total);
        assert_eq!(
            progress(done, total).eta_secs_after(nanos as u128),
            eta_in_doubles(done, total, nanos),
            "done {done}, total {total}, nanos {nanos}"
        );
    }
}

#[test]
fn percentage_rounds_like_doubles() {
    assert_eq!(progress(29, 100).percentage(), 28);
    let mut x: u64 = 0x2545_F491_4F6C_DD1D;
    for i in 0..20_000u32 {
        x ^= x << 13;
        x ^= x >> 7;
        x ^= x << 17;
        let total = if i % 2 == 0 { x % 10_000 } else { x >> (i % 64) };
        let done = if total == 0 {
            0
        } else if i % 5 == 0 {
            total
        } else {
            x.rotate_left(17) % total
        };
        let expected = if total == 0 { 0 } else { ((done as f64 / total as f64) * 100.0) as u8 };
        assert_eq!(progress(done, total).percentage(), expected, "done {done}, total {total}");
    }
    assert_eq!(progress(u64::MAX, 1).percentage(), 255);
}
