//! What a locally installed client tells of itself: where its extension
//! lies, and who is signed in.

use vstd::prelude::*;

verus! {

/// The kind of system that the client is installed on.
#[derive(Clone, Copy, Debug, PartialEq, Eq, Structural)]
pub enum Platform {
    MacOs,
    /// Windows or Linux.
    Other,
}

/// The way from the client's installation directory to its extension
/// script, one component after the other.
pub open spec fn extension_js_path(platform: Platform) -> Seq<Seq<char>> {
    match platform {
        Platform::MacOs => seq![
            "Contents"@,
            "Resources"@,
            "app"@,
            "extensions"@,
            "windsurf"@,
            "dist"@,
            "extension.js"@,
        ],
        Platform::Other => seq![
            "resources"@,
            "app"@,
            "extensions"@,
            "windsurf"@,
            "dist"@,
            "extension.js"@,
        ],
    }
}

/// The components of the way from the client's installation directory to
/// its extension script.
pub fn get_extension_js_relative_path(platform: Platform) -> (components: Vec<&'static str>)
    ensures
        components.deep_view() == extension_js_path(platform),
{
    let components: Vec<&'static str> = match platform {
        Platform::MacOs => vec![
            "Contents",
            "Resources",
            "app",
            "extensions",
            "windsurf",
            "dist",
            "extension.js",
        ],
        Platform::Other => vec!["resources", "app", "extensions", "windsurf", "dist", "extension.js"],
    };
    assert(components.deep_view() =~= extension_js_path(platform));
    components
}

/// Who is signed in to the local client.
#[derive(Debug, PartialEq, Eq)]
pub struct WindsurfCurrentInfo {
    pub email: Option<String>,
    pub name: Option<String>,
    pub api_key: Option<String>,
    pub plan_name: Option<String>,
    pub team_id: Option<String>,
    pub version: Option<String>,
    pub is_active: bool,
}

/// The sign-in state that the client keeps in its state database.
#[derive(Debug, PartialEq, Eq)]
pub struct WindsurfAuthStatus {
    pub name: Option<String>,
    pub api_key: Option<String>,
    pub email: Option<String>,
    pub team_id: Option<String>,
    pub plan_name: Option<String>,
}

/// What was found where the client keeps its state.
#[derive(Debug, PartialEq, Eq)]
pub enum StateProbe {
    /// There is no state database.
    NoDatabase,
    /// The database was read. Either entry may be missing or unreadable.
    Database { auth_status: Option<WindsurfAuthStatus>, version: Option<String> },
}

/// Who is signed in, as plain values.
pub struct WindsurfCurrentInfoView {
    pub email: Option<Seq<char>>,
    pub name: Option<Seq<char>>,
    pub api_key: Option<Seq<char>>,
    pub plan_name: Option<Seq<char>>,
    pub team_id: Option<Seq<char>>,
    pub version: Option<Seq<char>>,
    pub is_active: bool,
}

impl View for WindsurfCurrentInfo {
    type V = WindsurfCurrentInfoView;

    open spec fn view(&self) -> WindsurfCurrentInfoView {
        WindsurfCurrentInfoView {
            email: self.email.deep_view(),
            name: self.name.deep_view(),
            api_key: self.api_key.deep_view(),
            plan_name: self.plan_name.deep_view(),
            team_id: self.team_id.deep_view(),
            version: self.version.deep_view(),
            is_active: self.is_active,
        }
    }
}

/// What a probe says of the signed-in user: nobody without a database;
/// with one, the client's version, and the user where a sign-in state was
/// read.
pub open spec fn current_info_spec(probe: StateProbe) -> WindsurfCurrentInfoView {
    match probe {
        StateProbe::NoDatabase => WindsurfCurrentInfoView {
            email: None,
            name: None,
            api_key: None,
            plan_name: None,
            team_id: None,
            version: None,
            is_active: false,
        },
        StateProbe::Database { auth_status: None, version } => WindsurfCurrentInfoView {
            email: None,
            name: None,
            api_key: None,
            plan_name: None,
            team_id: None,
            version: version.deep_view(),
            is_active: false,
        },
        StateProbe::Database { auth_status: Some(auth), version } => WindsurfCurrentInfoView {
            email: auth.email.deep_view(),
            name: auth.name.deep_view(),
            api_key: auth.api_key.deep_view(),
            plan_name: auth.plan_name.deep_view(),
            team_id: auth.team_id.deep_view(),
            version: version.deep_view(),
            is_active: true,
        },
    }
}

/// Says who is signed in to the local client, from what was found where the
/// client keeps its state.
pub fn get_current_windsurf_info(probe: StateProbe) -> (info: WindsurfCurrentInfo)
    ensures
        info@ == current_info_spec(probe),
{
    match probe {
        StateProbe::NoDatabase => WindsurfCurrentInfo {
            email: None,
            name: None,
            api_key: None,
            plan_name: None,
            team_id: None,
            version: None,
            is_active: false,
        },
        StateProbe::Database { auth_status, version } => match auth_status {
            Some(auth) => WindsurfCurrentInfo {
                email: auth.email,
                name: auth.name,
                api_key: auth.api_key,
                plan_name: auth.plan_name,
                team_id: auth.team_id,
                version,
                is_active: true,
            },
            None => WindsurfCurrentInfo {
                email: None,
                name: None,
                api_key: None,
                plan_name: None,
                team_id: None,
                version,
                is_active: false,
            },
        },
    }
}

} // verus!
