use base64::Engine;
use quota_float::auth::{account_id_from_jwt, auth_from_document, auth_from_text};
use quota_float::json::Json;
use quota_float::menu::{initial_menu_labels, menu_labels, next_language, show_action, toggled_pin, ShowAction};
use quota_float::paths::{
    auth_path, backups_path, cc_switch_db_path, codex_home, codex_plus_backup_order,
    codex_plus_settings_path, config_path, BackupDir,
};
use quota_float::tray::{draw_rounded_rect, set_pixel, tray_progress_color, tray_progress_pixels, ICON_HEIGHT, ICON_WIDTH};

fn pixel(rgba: &[u8], size: usize, x: usize, y: usize) -> [u8; 4] {
    let i = (y * size + x) * 4;
    [rgba[i], rgba[i + 1], rgba[i + 2], rgba[i + 3]]
}

#[test]
fn tier_colors() {
    assert_eq!(tray_progress_color("caution"), (255, 154, 231));
    assert_eq!(tray_progress_color("critical"), (255, 111, 181));
    assert_eq!(tray_progress_color("stale"), (148, 163, 184));
    assert_eq!(tray_progress_color("signed_out"), (148, 163, 184));
    assert_eq!(tray_progress_color("unavailable"), (148, 163, 184));
    assert_eq!(tray_progress_color("healthy"), (255, 120, 242));
}

#[test]
fn sets_pixels_inside_the_square_only() {
    let mut rgba = vec![0u8; 4 * 4 * 4];
    set_pixel(&mut rgba, 4, 1, 2, (1, 2, 3, 4));
    assert_eq!(pixel(&rgba, 4, 1, 2), [1, 2, 3, 4]);
    let before = rgba.clone();
    set_pixel(&mut rgba, 4, 4, 0, (9, 9, 9, 9));
    set_pixel(&mut rgba, 4, 0, 7, (9, 9, 9, 9));
    assert_eq!(rgba, before);
    assert_eq!(rgba.iter().filter(|b| **b != 0).count(), 4);
}

#[test]
fn draws_rounded_corners() {
    let size = 20usize;
    let mut rgba = vec![0u8; size * size * 4];
    draw_rounded_rect(&mut rgba, 20, 2, 3, 10, 8, 3, (10, 20, 30, 40));
    assert_eq!(pixel(&rgba, size, 2, 3), [0, 0, 0, 0]);
    assert_eq!(pixel(&rgba, size, 11, 10), [0, 0, 0, 0]);
    assert_eq!(pixel(&rgba, size, 5, 3), [10, 20, 30, 40]);
    assert_eq!(pixel(&rgba, size, 2, 6), [10, 20, 30, 40]);
    assert_eq!(pixel(&rgba, size, 3, 4), [10, 20, 30, 40]);
    assert_eq!(pixel(&rgba, size, 12, 5), [0, 0, 0, 0]);
    assert_eq!(pixel(&rgba, size, 6, 11), [0, 0, 0, 0]);
    let painted = (0..size * size).filter(|p| rgba[p * 4 + 3] == 40).count();
    assert_eq!(painted, 60);
}

#[test]
fn progress_icon_layers() {
    let empty = tray_progress_pixels(0, "healthy");
    let full = tray_progress_pixels(40, "critical");
    let w = ICON_WIDTH as usize;
    assert_eq!(empty.len(), (ICON_WIDTH * ICON_HEIGHT * 4) as usize);
    assert_eq!(pixel(&empty, w, 0, 0), [0, 0, 0, 0]);
    assert_eq!(pixel(&empty, w, 20, 9), [255, 255, 255, 135]);
    assert_eq!(pixel(&empty, w, 20, 15), [74, 82, 102, 172]);
    assert_eq!(pixel(&full, w, 20, 15), [255, 111, 181, 255]);
    assert_eq!(pixel(&full, w, 20, 12), [255, 255, 255, 112]);
    assert_eq!(pixel(&full, w, 20, 18), [0, 0, 0, 38]);
    assert_eq!(pixel(&full, w, 20, 25), [0, 0, 0, 0]);
    let half = tray_progress_pixels(20, "caution");
    assert_eq!(pixel(&half, w, 10, 15), [255, 154, 231, 255]);
    assert_eq!(pixel(&half, w, 30, 15), [74, 82, 102, 172]);
}

#[test]
fn codex_files() {
    let home = codex_home(None, Some("/home/u")).unwrap();
    assert!(home.starts_with("/home/u") && home.ends_with(".codex"));
    assert_eq!(codex_home(Some("/data/codex"), Some("/home/u")).as_deref(), Some("/data/codex"));
    assert!(codex_home(None, None).is_none());
    let auth = auth_path(Some("/data/codex")).unwrap();
    assert!(auth.starts_with("/data/codex") && auth.ends_with("auth.json"));
    assert_eq!(auth.len(), "/data/codex/auth.json".len());
    assert!(config_path(Some("/data/codex")).unwrap().ends_with("config.toml"));
    assert!(backups_path(Some("/data/codex")).unwrap().ends_with("backups"));
    assert!(auth_path(None).is_none());
    let db = cc_switch_db_path(Some("/home/u")).unwrap();
    assert!(db.starts_with("/home/u") && db.ends_with("cc-switch.db") && db.contains(".cc-switch"));
    let settings = codex_plus_settings_path(Some("/home/u")).unwrap();
    assert!(settings.ends_with("settings.json") && settings.contains(".codex-session-delete"));
    assert!(cc_switch_db_path(None).is_none());
}

fn entry(path: &str, name: &str, is_dir: bool, modified: i128) -> BackupDir {
    BackupDir { path: path.into(), name: name.into(), is_dir, modified }
}

#[test]
fn orders_codex_plus_backups_newest_first() {
    let dirs = vec![
        entry("/b/a", "codex-plus-live-a", true, 10),
        entry("/b/x", "other", true, 99),
        entry("/b/b", "codex-plus-live-b", true, 30),
        entry("/b/f", "codex-plus-live-file", false, 50),
        entry("/b/c", "codex-plus-live-c", true, 10),
        entry("/b/d", "codex-plus-live-d", true, -5),
    ];
    assert_eq!(codex_plus_backup_order(&dirs), vec!["/b/b", "/b/a", "/b/c", "/b/d"]);
    assert!(codex_plus_backup_order(&Vec::new()).is_empty());
}

#[test]
fn menu_labels_follow_the_language() {
    let initial = initial_menu_labels("en");
    assert_eq!(initial[0], "Show / Hide");
    assert_eq!(initial[6], "Switch Language / 切换语言");
    let chinese = initial_menu_labels("zh-CN");
    assert_eq!(chinese[0], "显示 / 隐藏");
    assert_eq!(chinese[6], "Switch to English");
    assert_eq!(chinese.len(), 9);
    assert_eq!(menu_labels(true)[6], "切换到中文");
    assert_eq!(menu_labels(true)[8], "Quit");
    assert_eq!(menu_labels(false), chinese);
    assert_eq!(next_language("en"), "zh-CN");
    assert_eq!(next_language("zh-CN"), "en");
    assert_eq!(toggled_pin(&None).as_deref(), Some("codex"));
    assert_eq!(toggled_pin(&Some("codex".into())), None);
    assert_eq!(show_action(true, true), ShowAction::Nothing);
    assert_eq!(show_action(false, true), ShowAction::Hide);
    assert_eq!(show_action(false, false), ShowAction::ShowAndFocus);
}

fn jwt(payload: &str) -> String {
    let engine = base64::engine::general_purpose::URL_SAFE_NO_PAD;
    format!("{}.{}.sig", engine.encode("{\"alg\":\"none\"}"), engine.encode(payload))
}

#[test]
fn reads_the_account_from_the_token() {
    let token = jwt("{\"https://api.openai.com/auth.chatgpt_account_id\":\"acct-1\"}");
    assert_eq!(account_id_from_jwt(&token).as_deref(), Some("acct-1"));
    let token = jwt("{\"chatgpt_account_id\":\"acct-2\"}");
    assert_eq!(account_id_from_jwt(&token).as_deref(), Some("acct-2"));
    assert_eq!(account_id_from_jwt("no-dots"), None);
    assert_eq!(account_id_from_jwt("a.!!!.c"), None);
}

#[test]
fn reads_the_sign_in() {
    let token = jwt("{\"chatgpt_account_id\":\"acct-2\"}");
    let doc = Json::Object(vec![(
        "tokens".to_string(),
        Json::Object(vec![("access_token".to_string(), Json::Str(token.clone()))]),
    )]);
    let auth = auth_from_document(&doc).unwrap();
    assert_eq!(auth.access_token, token);
    assert_eq!(auth.account_id.as_deref(), Some("acct-2"));
    let doc = Json::Object(vec![
        ("accessToken".to_string(), Json::Str("t".to_string())),
        ("accountId".to_string(), Json::Str("acct-3".to_string())),
    ]);
    let auth = auth_from_document(&doc).unwrap();
    assert_eq!(auth.account_id.as_deref(), Some("acct-3"));
    assert_eq!(
        auth_from_document(&Json::Object(Vec::new())).unwrap_err(),
        "Codex login expired. Please sign in again."
    );
}

#[test]
fn reads_the_sign_in_from_the_auth_file_text() {
    let token = jwt("{\"chatgpt_account_id\":\"acct-9\"}");
    let raw = format!("{{\"tokens\": {{\"access_token\": \"{token}\"}}}}");
    let auth = auth_from_text(&raw).unwrap();
    assert_eq!(auth.access_token, token);
    assert_eq!(auth.account_id.as_deref(), Some("acct-9"));
    assert_eq!(auth_from_text("{ not json").unwrap_err(), "Codex login format has changed.");
    assert_eq!(auth_from_text("{}").unwrap_err(), "Codex login expired. Please sign in again.");
    assert_eq!(account_id_from_jwt(&format!("a.{}.c", "bm90IGpzb24")), None);
}
