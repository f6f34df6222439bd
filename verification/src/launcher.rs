//! What the launcher answers to its front end.

use vstd::prelude::*;
use vstd::string::*;

use crate::text::{decimal, decimal_text};

verus! {

/// Things that only a phone can do.
#[derive(Clone, Copy, Debug, PartialEq, Eq, Structural)]
pub enum PhoneFeature {
    Immersive,
    StatusBar,
    Vibration,
}

/// The greeting of a name.
pub open spec fn greeting(name: Seq<char>) -> Seq<char> {
    "Hello, "@ + name + "! You've been greeted from Rust!"@
}

/// Greets.
pub fn greet(name: &str) -> (r: String)
    ensures
        r@ == greeting(name@),
{
    let mut text: String = "Hello, ".to_owned();
    text.append(name);
    text.append("! You've been greeted from Rust!");
    text
}

/// What a desktop answers to a request for a phone's feature.
pub open spec fn refusal(feature: PhoneFeature) -> Seq<char> {
    match feature {
        PhoneFeature::Immersive => "全屏模式仅在 Android 端可用"@,
        PhoneFeature::StatusBar => "状态栏控制仅在 Android 端可用"@,
        PhoneFeature::Vibration => "震动仅在 Android 端可用"@,
    }
}

/// What a desktop answers to a request for a phone's feature.
pub fn desktop_refusal(feature: PhoneFeature) -> (r: &'static str)
    ensures
        r@ == refusal(feature),
{
    match feature {
        PhoneFeature::Immersive => "全屏模式仅在 Android 端可用",
        PhoneFeature::StatusBar => "状态栏控制仅在 Android 端可用",
        PhoneFeature::Vibration => "震动仅在 Android 端可用",
    }
}

/// The answer to a switch of the immersive mode, from what the phone's reply says of it.
pub fn immersive_reply(immersive: Option<bool>) -> (r: Result<bool, &'static str>)
    ensures
        match immersive {
            Some(b) => r == Ok::<bool, &'static str>(b),
            None => r matches Err(text) && text@ == "Kotlin 返回格式异常"@,
        },
{
    match immersive {
        Some(b) => Ok(b),
        None => Err("Kotlin 返回格式异常"),
    }
}

/// What the back end says of itself.
pub fn server_message() -> (r: &'static str)
    ensures
        r@ == "这条数据来自 Rust 后端"@,
{
    "这条数据来自 Rust 后端"
}

/// Title of the event that is sent to the front end.
pub fn event_title() -> (r: &'static str)
    ensures
        r@ == "来自 Rust 的事件"@,
{
    "来自 Rust 的事件"
}

/// Text of the event that is sent to the front end, from the time in milliseconds.
pub fn event_body(millis: u64) -> (r: String)
    ensures
        r@ == "事件触发时间戳: "@ + decimal_text(millis as nat),
{
    let mut text: String = "事件触发时间戳: ".to_owned();
    text.append(decimal(millis).as_str());
    text
}

/// What a desktop says of itself in place of a phone's data.
#[derive(Clone, Copy, Debug, PartialEq)]
pub struct DeviceInfo {
    pub platform: &'static str,
    pub message: &'static str,
}

/// What a desktop says of itself.
pub fn desktop_device_info() -> (r: DeviceInfo)
    ensures
        r.platform@ == "desktop"@,
        r.message@ == "设备信息仅在 Android 端可获取"@,
{
    DeviceInfo { platform: "desktop", message: "设备信息仅在 Android 端可获取" }
}

/// What is done to the demonstration file.
#[derive(Clone, Copy, Debug, PartialEq, Eq, Structural)]
pub enum FileStep {
    FindDirectory,
    CreateDirectory,
    Write,
    Read,
}

/// How the text begins that says what failed.
pub open spec fn failure_prefix(step: FileStep) -> Seq<char> {
    match step {
        FileStep::FindDirectory => "获取目录失败: "@,
        FileStep::CreateDirectory => "创建目录失败: "@,
        FileStep::Write => "写入失败: "@,
        FileStep::Read => "读取失败: "@,
    }
}

/// The text that says what failed, and why.
pub fn file_failure(step: FileStep, error: &str) -> (r: String)
    ensures
        r@ == failure_prefix(step) + error@,
{
    let mut text: String = match step {
        FileStep::FindDirectory => "获取目录失败: ".to_owned(),
        FileStep::CreateDirectory => "创建目录失败: ".to_owned(),
        FileStep::Write => "写入失败: ".to_owned(),
        FileStep::Read => "读取失败: ".to_owned(),
    };
    text.append(error);
    text
}

/// A greeting greets the name that it is given, whole and once.
pub proof fn greeting_holds_the_name(name: Seq<char>)
    ensures
        greeting(name).len() == 7 + name.len() + 32,
        greeting(name).take(7) == "Hello, "@,
        greeting(name).subrange(7, 7 + name.len() as int) == name,
{
    reveal_strlit("Hello, ");
    reveal_strlit("! You've been greeted from Rust!");
    assert(greeting(name).take(7) =~= "Hello, "@);
    assert(greeting(name).subrange(7, 7 + name.len() as int) =~= name);
}

} // verus!
