//! The built-in lists and URL schemes that seed an empty store.

use vstd::prelude::*;

verus! {

use crate::model::{ListItem, UrlScheme};

/// The three built-in lists an empty store starts with.
pub fn default_lists() -> (r: Vec<ListItem>)
    ensures
        r@.len() == 3,
        r@[0].id@ == "list_today"@ && r@[0].name@ == "所有任务"@ && r@[0].icon@ == "📋"@,
        r@[1].id@ == "list_work"@ && r@[1].name@ == "工作"@ && r@[1].icon@ == "💼"@,
        r@[2].id@ == "list_life"@ && r@[2].name@ == "生活"@ && r@[2].icon@ == "🏡"@,
{
    let mut r: Vec<ListItem> = Vec::new();
    r.push(
        ListItem {
            id: "list_today".to_owned(),
            name: "所有任务".to_owned(),
            icon: "📋".to_owned(),
        },
    );
    r.push(ListItem { id: "list_work".to_owned(), name: "工作".to_owned(), icon: "💼".to_owned() });
    r.push(ListItem { id: "list_life".to_owned(), name: "生活".to_owned(), icon: "🏡".to_owned() });
    r
}

/// The built-in URL schemes an empty store starts with: every one of kind
/// `url`, with its template and parameter type.
pub fn default_schemes() -> (r: Vec<UrlScheme>)
    ensures
        r@.len() == 7,
        forall|i: int| 0 <= i < r@.len() ==> (#[trigger] r@[i]).kind@ == "url"@,
        r@[0].id@ == "scheme_wemeet"@ && r@[0].name@ == "腾讯会议"@ && r@[0].icon@ == "📹"@
            && r@[0].template@ == "wemeet://inmeeting?code={param}"@ && r@[0].param_type@
            == "number"@,
        r@[1].id@ == "scheme_mail"@ && r@[1].name@ == "邮件"@ && r@[1].icon@ == "✉️"@
            && r@[1].template@ == "mailto:{param}?subject={param}"@ && r@[1].param_type@
            == "string"@,
        r@[2].id@ == "scheme_maps"@ && r@[2].name@ == "高德地图"@ && r@[2].icon@ == "🗺️"@
            && r@[2].template@ == "iosamap://path?sourceApplication=linkflow&dname={param}"@
            && r@[2].param_type@ == "string"@,
        r@[3].id@ == "scheme_weixin_scanqrcode"@ && r@[3].name@ == "微信-扫一扫"@ && r@[3].icon@
            == "🟢"@ && r@[3].template@ == "weixin://scanqrcode"@ && r@[3].param_type@
            == "string"@,
        r@[4].id@ == "scheme_zhihu_search"@ && r@[4].name@ == "知乎-搜索"@ && r@[4].icon@ == "🔎"@
            && r@[4].template@ == "zhihu://search?q={param}"@ && r@[4].param_type@ == "string"@,
        r@[5].id@ == "scheme_macos_tel"@ && r@[5].name@ == "macos-电话"@ && r@[5].icon@ == "📞"@
            && r@[5].template@ == "tel://{param}"@ && r@[5].param_type@ == "number"@,
        r@[6].id@ == "scheme_macos_message"@ && r@[6].name@ == "macos-邮件"@ && r@[6].icon@
            == "📨"@ && r@[6].template@ == "message://"@ && r@[6].param_type@ == "string"@,
{
    let mut r: Vec<UrlScheme> = Vec::new();
    r.push(
        UrlScheme {
            id: "scheme_wemeet".to_owned(),
            name: "腾讯会议".to_owned(),
            icon: "📹".to_owned(),
            template: "wemeet://inmeeting?code={param}".to_owned(),
            kind: "url".to_owned(),
            param_type: "number".to_owned(),
        },
    );
    r.push(
        UrlScheme {
            id: "scheme_mail".to_owned(),
            name: "邮件".to_owned(),
            icon: "✉️".to_owned(),
            template: "mailto:{param}?subject={param}".to_owned(),
            kind: "url".to_owned(),
            param_type: "string".to_owned(),
        },
    );
    r.push(
        UrlScheme {
            id: "scheme_maps".to_owned(),
            name: "高德地图".to_owned(),
            icon: "🗺️".to_owned(),
            template: "iosamap://path?sourceApplication=linkflow&dname={param}".to_owned(),
            kind: "url".to_owned(),
            param_type: "string".to_owned(),
        },
    );
    r.push(
        UrlScheme {
            id: "scheme_weixin_scanqrcode".to_owned(),
            name: "微信-扫一扫".to_owned(),
            icon: "🟢".to_owned(),
            template: "weixin://scanqrcode".to_owned(),
            kind: "url".to_owned(),
            param_type: "string".to_owned(),
        },
    );
    r.push(
        UrlScheme {
            id: "scheme_zhihu_search".to_owned(),
            name: "知乎-搜索".to_owned(),
            icon: "🔎".to_owned(),
            template: "zhihu://search?q={param}".to_owned(),
            kind: "url".to_owned(),
            param_type: "string".to_owned(),
        },
    );
    r.push(
        UrlScheme {
            id: "scheme_macos_tel".to_owned(),
            name: "macos-电话".to_owned(),
            icon: "📞".to_owned(),
            template: "tel://{param}".to_owned(),
            kind: "url".to_owned(),
            param_type: "number".to_owned(),
        },
    );
    r.push(
        UrlScheme {
            id: "scheme_macos_message".to_owned(),
            name: "macos-邮件".to_owned(),
            icon: "📨".to_owned(),
            template: "message://".to_owned(),
            kind: "url".to_owned(),
            param_type: "string".to_owned(),
        },
    );
    r
}

} // verus!
