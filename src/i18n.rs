//! Localized messages, with the language held in an explicit context value.

use vstd::prelude::*;
use vstd::string::StringExecFns;
use crate::text::str_eq;

verus! {

/// The text for a language code: Chinese, English or Japanese; the key
/// itself for any other code.
pub open spec fn in_language(
    lang: Seq<char>,
    zh: Seq<char>,
    en: Seq<char>,
    ja: Seq<char>,
    key: Seq<char>,
) -> Seq<char> {
    if lang == "zh-CN"@ {
        zh
    } else if lang == "en-US"@ {
        en
    } else if lang == "ja-JP"@ {
        ja
    } else {
        key
    }
}

/// The message for `key` in language `lang`; the key itself when there is none.
pub open spec fn localized_message(key: Seq<char>, lang: Seq<char>) -> Seq<char> {
    if key == "file.detected"@ {
        in_language(lang, "检测到文件"@, "File detected"@, "ファイルを検出"@, key)
    } else if key == "file.stable"@ {
        in_language(lang, "文件已稳定"@, "File is stable"@, "ファイルが安定"@, key)
    } else if key == "file.stability_check"@ {
        in_language(lang, "文件稳定检查"@, "File stability check"@, "ファイル安定性チェック"@, key)
    } else if key == "file.stability_timeout"@ {
        in_language(lang, "文件稳定性检查超时"@, "File stability check timeout"@, "ファイル安定性チェックタイムアウト"@, key)
    } else if key == "file.stability_failed"@ {
        in_language(lang, "文件稳定性检查失败，跳过"@, "File stability check failed, skipping"@, "ファイル安定性チェック失敗、スキップ"@, key)
    } else if key == "file.event_sent"@ {
        in_language(lang, "文件检测事件已发送到前端"@, "File detection event sent to frontend"@, "ファイル検出イベントがフロントエンドに送信されました"@, key)
    } else if key == "file.sending_event"@ {
        in_language(lang, "文件已稳定，发送检测事件"@, "File is stable, sending detection event"@, "ファイルが安定、検出イベントを送信"@, key)
    } else if key == "config.saved"@ {
        in_language(lang, "配置已保存到"@, "Configuration saved to"@, "設定を保存しました"@, key)
    } else if key == "config.loaded"@ {
        in_language(lang, "配置已加载"@, "Configuration loaded"@, "設定を読み込みました"@, key)
    } else if key == "config.not_found"@ {
        in_language(lang, "配置文件不存在，使用默认配置"@, "Configuration file not found, using defaults"@, "設定ファイルが見つかりません、デフォルトを使用"@, key)
    } else if key == "language.saved"@ {
        in_language(lang, "语言设置已保存"@, "Language setting saved"@, "言語設定を保存しました"@, key)
    } else if key == "activity.cleared"@ {
        in_language(lang, "活动日志已清空"@, "Activity log cleared"@, "アクティビティログをクリアしました"@, key)
    } else if key == "window.hidden"@ {
        in_language(lang, "窗口已隐藏到托盘"@, "Window hidden to tray"@, "ウィンドウをトレイに隠しました"@, key)
    } else {
        key
    }
}

fn pick(lang: &str, zh: &str, en: &str, ja: &str, key: &str) -> (r: String)
    ensures
        r@ == in_language(lang@, zh@, en@, ja@, key@),
{
    if str_eq(lang, "zh-CN") {
        zh.to_owned()
    } else if str_eq(lang, "en-US") {
        en.to_owned()
    } else if str_eq(lang, "ja-JP") {
        ja.to_owned()
    } else {
        key.to_owned()
    }
}

/// The message for `key` in language `lang`; the key itself when there is none.
pub fn translate(key: &str, lang: &str) -> (r: String)
    ensures
        r@ == localized_message(key@, lang@),
{
    if str_eq(key, "file.detected") {
        pick(lang, "检测到文件", "File detected", "ファイルを検出", key)
    } else if str_eq(key, "file.stable") {
        pick(lang, "文件已稳定", "File is stable", "ファイルが安定", key)
    } else if str_eq(key, "file.stability_check") {
        pick(lang, "文件稳定检查", "File stability check", "ファイル安定性チェック", key)
    } else if str_eq(key, "file.stability_timeout") {
        pick(lang, "文件稳定性检查超时", "File stability check timeout", "ファイル安定性チェックタイムアウト", key)
    } else if str_eq(key, "file.stability_failed") {
        pick(lang, "文件稳定性检查失败，跳过", "File stability check failed, skipping", "ファイル安定性チェック失敗、スキップ", key)
    } else if str_eq(key, "file.event_sent") {
        pick(lang, "文件检测事件已发送到前端", "File detection event sent to frontend", "ファイル検出イベントがフロントエンドに送信されました", key)
    } else if str_eq(key, "file.sending_event") {
        pick(lang, "文件已稳定，发送检测事件", "File is stable, sending detection event", "ファイルが安定、検出イベントを送信", key)
    } else if str_eq(key, "config.saved") {
        pick(lang, "配置已保存到", "Configuration saved to", "設定を保存しました", key)
    } else if str_eq(key, "config.loaded") {
        pick(lang, "配置已加载", "Configuration loaded", "設定を読み込みました", key)
    } else if str_eq(key, "config.not_found") {
        pick(lang, "配置文件不存在，使用默认配置", "Configuration file not found, using defaults", "設定ファイルが見つかりません、デフォルトを使用", key)
    } else if str_eq(key, "language.saved") {
        pick(lang, "语言设置已保存", "Language setting saved", "言語設定を保存しました", key)
    } else if str_eq(key, "activity.cleared") {
        pick(lang, "活动日志已清空", "Activity log cleared", "アクティビティログをクリアしました", key)
    } else if str_eq(key, "window.hidden") {
        pick(lang, "窗口已隐藏到托盘", "Window hidden to tray", "ウィンドウをトレイに隠しました", key)
    } else {
        key.to_owned()
    }
}

/// The language that messages are shown in.
#[derive(Debug, Clone)]
pub struct Localizer {
    pub language: String,
}

impl Localizer {
    /// Starts in Simplified Chinese ("zh-CN").
    pub fn new() -> (r: Self)
        ensures
            r.language@ == "zh-CN"@,
    {
        Localizer { language: String::from_str("zh-CN") }
    }

    pub fn set_language(&mut self, lang: &str)
        ensures
            final(self).language@ == lang@,
    {
        self.language = lang.to_owned();
    }

    pub fn get_language(&self) -> (r: String)
        ensures
            r@ == self.language@,
    {
        self.language.clone()
    }

    /// The message for `key` in the current language.
    pub fn t(&self, key: &str) -> (r: String)
        ensures
            r@ == localized_message(key@, self.language@),
    {
        translate(key, self.language.as_str())
    }
}

} // verus!
