//! The application catalog: descriptors of the applications the installer
//! pipeline can set up, with the probes used to detect a present
//! installation.

use vstd::prelude::*;
use vstd::string::StringSliceAdditionalSpecFns;

verus! {

/// One cataloged application.
///
/// Everything but `installed` is fixed for the life of the process;
/// `installed` is written only by the detection pass.
pub struct AppDescriptor {
    /// Display name; also matched against uninstall-registry display names.
    pub name: Vec<u8>,
    /// Category the descriptor is grouped under.
    pub category: Vec<u8>,
    /// Identifier understood by the installer vendor's endpoint.
    pub installer_id: Vec<u8>,
    /// Registry key paths probed under both roots and both registry views.
    pub registry_probes: Vec<Vec<u8>>,
    /// Path patterns probed on the filesystem; a pattern may hold a
    /// user-name placeholder and wildcards.
    pub path_probes: Vec<Vec<u8>>,
    /// Whether the last detection pass found the application.
    pub installed: bool,
}

/// Copy a list of string literals into byte strings.
fn to_byte_lists(items: Vec<&str>) -> (r: Vec<Vec<u8>>)
    ensures
        r.deep_view().len() == items@.len(),
        forall|i: int|
            0 <= i < items@.len() ==> r.deep_view()[i] == (#[trigger] items@[i]).spec_bytes(),
{
    let mut r: Vec<Vec<u8>> = Vec::new();
    let mut i: usize = 0;
    while i < items.len()
        invariant
            i <= items@.len(),
            r.deep_view().len() == i,
            forall|k: int|
                0 <= k < i ==> r.deep_view()[k] == (#[trigger] items@[k]).spec_bytes(),
        decreases items@.len() - i,
    {
        r.push(vstd::slice::slice_to_vec(items[i].as_bytes()));
        i = i + 1;
    }
    r
}

impl AppDescriptor {
    /// A descriptor that has not been detected yet.
    pub fn new(
        name: &str,
        category: &str,
        installer_id: &str,
        registry_probes: Vec<&str>,
        path_probes: Vec<&str>,
    ) -> (r: AppDescriptor)
        ensures
            r.name@ == name.spec_bytes(),
            r.category@ == category.spec_bytes(),
            r.installer_id@ == installer_id.spec_bytes(),
            r.registry_probes.deep_view().len() == registry_probes@.len(),
            forall|i: int|
                0 <= i < registry_probes@.len() ==> r.registry_probes.deep_view()[i] == (
                #[trigger] registry_probes@[i]).spec_bytes(),
            r.path_probes.deep_view().len() == path_probes@.len(),
            forall|i: int|
                0 <= i < path_probes@.len() ==> r.path_probes.deep_view()[i] == (
                #[trigger] path_probes@[i]).spec_bytes(),
            !r.installed,
    {
        AppDescriptor {
            name: vstd::slice::slice_to_vec(name.as_bytes()),
            category: vstd::slice::slice_to_vec(category.as_bytes()),
            installer_id: vstd::slice::slice_to_vec(installer_id.as_bytes()),
            registry_probes: to_byte_lists(registry_probes),
            path_probes: to_byte_lists(path_probes),
            installed: false,
        }
    }
}

/// The static catalog: every application the installer pipeline knows, with
/// its registry and filesystem probes, none detected yet.
pub fn default_catalog() -> (r: Vec<AppDescriptor>)
    ensures
        r@.len() == 22,
        forall|i: int| 0 <= i < r@.len() ==> !(#[trigger] r@[i]).installed,
        r@[0].name@ == "Chrome".spec_bytes() && r@[0].installer_id@ == "chrome".spec_bytes(),
        r@[1].name@ == "Firefox".spec_bytes() && r@[1].installer_id@ == "firefox".spec_bytes(),
        r@[2].name@ == "Edge".spec_bytes() && r@[2].installer_id@ == "edge".spec_bytes(),
        r@[3].name@ == "Zoom".spec_bytes() && r@[3].installer_id@ == "zoom".spec_bytes(),
        r@[4].name@ == "Discord".spec_bytes() && r@[4].installer_id@ == "discord".spec_bytes(),
        r@[5].name@ == "VLC".spec_bytes() && r@[5].installer_id@ == "vlc".spec_bytes(),
        r@[6].name@ == "Audacity".spec_bytes() && r@[6].installer_id@ == "audacity".spec_bytes(),
        r@[7].name@ == "Blender".spec_bytes() && r@[7].installer_id@ == "blender".spec_bytes(),
        r@[8].name@ == "Paint.NET".spec_bytes() && r@[8].installer_id@
            == "paintdotnet".spec_bytes(),
        r@[9].name@ == "GIMP".spec_bytes() && r@[9].installer_id@ == "gimp".spec_bytes(),
        r@[10].name@ == "LibreOffice".spec_bytes() && r@[10].installer_id@
            == "libreoffice".spec_bytes(),
        r@[11].name@ == "Python".spec_bytes() && r@[11].installer_id@ == "python".spec_bytes(),
        r@[12].name@ == "FileZilla".spec_bytes() && r@[12].installer_id@
            == "filezilla".spec_bytes(),
        r@[13].name@ == "Notepad++".spec_bytes() && r@[13].installer_id@
            == "notepadplusplus".spec_bytes(),
        r@[14].name@ == "WinSCP".spec_bytes() && r@[14].installer_id@ == "winscp".spec_bytes(),
        r@[15].name@ == "PuTTY".spec_bytes() && r@[15].installer_id@ == "putty".spec_bytes(),
        r@[16].name@ == "Visual Studio Code".spec_bytes() && r@[16].installer_id@
            == "vscode".spec_bytes(),
        r@[17].name@ == "Evernote".spec_bytes() && r@[17].installer_id@
            == "evernote".spec_bytes(),
        r@[18].name@ == "Google Earth".spec_bytes() && r@[18].installer_id@
            == "googleearth".spec_bytes(),
        r@[19].name@ == "7-Zip".spec_bytes() && r@[19].installer_id@ == "7zip".spec_bytes(),
        r@[20].name@ == "WinRAR".spec_bytes() && r@[20].installer_id@ == "winrar".spec_bytes(),
        r@[21].name@ == "qBittorrent".spec_bytes() && r@[21].installer_id@
            == "qbittorrent".spec_bytes(),
{
    let mut r: Vec<AppDescriptor> = Vec::new();
    r.push(AppDescriptor::new("Chrome", "Web Browsers", "chrome",
        vec![
            "SOFTWARE\\Microsoft\\Windows\\CurrentVersion\\App Paths\\chrome.exe",
            "SOFTWARE\\Google\\Chrome",
        ],
        vec![
            "C:\\Program Files\\Google\\Chrome\\Application\\chrome.exe",
            "C:\\Program Files (x86)\\Google\\Chrome\\Application\\chrome.exe",
            "C:\\Users\\%USERNAME%\\AppData\\Local\\Google\\Chrome\\Application\\chrome.exe",
        ]));
    r.push(AppDescriptor::new("Firefox", "Web Browsers", "firefox",
        vec![
            "SOFTWARE\\Mozilla\\Mozilla Firefox",
            "SOFTWARE\\Microsoft\\Windows\\CurrentVersion\\App Paths\\firefox.exe",
        ],
        vec![
            "C:\\Program Files\\Mozilla Firefox\\firefox.exe",
            "C:\\Program Files (x86)\\Mozilla Firefox\\firefox.exe",
            "C:\\Users\\%USERNAME%\\AppData\\Local\\Mozilla Firefox\\firefox.exe",
        ]));
    r.push(AppDescriptor::new("Edge", "Web Browsers", "edge",
        vec![
            "SOFTWARE\\Microsoft\\Edge",
            "SOFTWARE\\Microsoft\\Windows\\CurrentVersion\\App Paths\\msedge.exe",
        ],
        vec![
            "C:\\Program Files\\Microsoft\\Edge\\Application\\msedge.exe",
            "C:\\Program Files (x86)\\Microsoft\\Edge\\Application\\msedge.exe",
        ]));
    r.push(AppDescriptor::new("Zoom", "Messaging", "zoom",
        vec![
            "SOFTWARE\\Microsoft\\Windows\\CurrentVersion\\Uninstall\\ZoomUMX",
            "SOFTWARE\\WOW6432Node\\Microsoft\\Windows\\CurrentVersion\\Uninstall\\ZoomUMX",
            "SOFTWARE\\Microsoft\\Windows\\CurrentVersion\\Uninstall\\Zoom",
        ],
        vec![
            "C:\\Program Files\\Zoom\\bin\\Zoom.exe",
            "C:\\Program Files (x86)\\Zoom\\bin\\Zoom.exe",
            "C:\\Users\\%USERNAME%\\AppData\\Roaming\\Zoom\\bin\\Zoom.exe",
            "C:\\Users\\%USERNAME%\\AppData\\Local\\Zoom\\bin\\Zoom.exe",
        ]));
    r.push(AppDescriptor::new("Discord", "Messaging", "discord",
        vec![
            "SOFTWARE\\Microsoft\\Windows\\CurrentVersion\\Uninstall\\Discord",
            "SOFTWARE\\Microsoft\\Windows\\CurrentVersion\\App Paths\\Discord.exe",
        ],
        vec![
            "C:\\Program Files\\Discord\\Discord.exe",
            "C:\\Program Files (x86)\\Discord\\Discord.exe",
            "C:\\Users\\%USERNAME%\\AppData\\Local\\Discord\\app-*\\Discord.exe",
        ]));
    r.push(AppDescriptor::new("VLC", "Media", "vlc",
        vec![
            "SOFTWARE\\VideoLAN\\VLC",
            "SOFTWARE\\Microsoft\\Windows\\CurrentVersion\\App Paths\\vlc.exe",
        ],
        vec![
            "C:\\Program Files\\VideoLAN\\VLC\\vlc.exe",
            "C:\\Program Files (x86)\\VideoLAN\\VLC\\vlc.exe",
            "C:\\Users\\%USERNAME%\\AppData\\Local\\Programs\\VideoLAN\\VLC\\vlc.exe",
        ]));
    r.push(AppDescriptor::new("Audacity", "Media", "audacity",
        vec![
            "SOFTWARE\\Microsoft\\Windows\\CurrentVersion\\App Paths\\audacity.exe",
        ],
        vec![
            "C:\\Program Files\\Audacity\\audacity.exe",
            "C:\\Program Files (x86)\\Audacity\\audacity.exe",
            "C:\\Users\\%USERNAME%\\AppData\\Local\\Programs\\Audacity\\audacity.exe",
        ]));
    r.push(AppDescriptor::new("Blender", "Imaging", "blender",
        vec![
            "SOFTWARE\\BlenderFoundation",
            "SOFTWARE\\Microsoft\\Windows\\CurrentVersion\\App Paths\\blender.exe",
        ],
        vec![
            "C:\\Program Files\\Blender Foundation\\Blender *\\blender.exe",
            "C:\\Program Files (x86)\\Blender Foundation\\Blender *\\blender.exe",
        ]));
    r.push(AppDescriptor::new("Paint.NET", "Imaging", "paintdotnet",
        vec![
            "SOFTWARE\\Paint.NET",
        ],
        vec![
            "C:\\Program Files\\paint.net\\PaintDotNet.exe",
            "C:\\Program Files (x86)\\paint.net\\PaintDotNet.exe",
        ]));
    r.push(AppDescriptor::new("GIMP", "Imaging", "gimp",
        vec![
            "SOFTWARE\\Microsoft\\Windows\\CurrentVersion\\App Paths\\gimp-2.10.exe",
            "SOFTWARE\\Classes\\GIMP-2.10",
            "SOFTWARE\\WOW6432Node\\Microsoft\\Windows\\CurrentVersion\\Uninstall\\GIMP-2.10",
        ],
        vec![
            "C:\\Program Files\\GIMP 3\\bin\\gimp.exe",
            "C:\\Program Files (x86)\\GIMP 3\\bin\\gimp.exe",
            "C:\\Users\\%USERNAME%\\AppData\\Local\\Programs\\GIMP 3\\bin\\gimp.exe",
        ]));
    r.push(AppDescriptor::new("LibreOffice", "Documents", "libreoffice",
        vec![
            "SOFTWARE\\LibreOffice",
            "SOFTWARE\\Microsoft\\Windows\\CurrentVersion\\App Paths\\soffice.exe",
        ],
        vec![
            "C:\\Program Files\\LibreOffice\\program\\soffice.exe",
            "C:\\Program Files (x86)\\LibreOffice\\program\\soffice.exe",
        ]));
    r.push(AppDescriptor::new("Python", "Developer Tools", "python",
        vec![
            "SOFTWARE\\Python\\PythonCore",
        ],
        vec![
            "C:\\Program Files\\Python*\\python.exe",
            "C:\\Program Files (x86)\\Python*\\python.exe",
            "C:\\Python*\\python.exe",
            "C:\\Users\\%USERNAME%\\AppData\\Local\\Programs\\Python\\Python*\\python.exe",
        ]));
    r.push(AppDescriptor::new("FileZilla", "Developer Tools", "filezilla",
        vec![
            "SOFTWARE\\Microsoft\\Windows\\CurrentVersion\\Uninstall\\FileZilla Client",
        ],
        vec![
            "C:\\Program Files\\FileZilla FTP Client\\filezilla.exe",
            "C:\\Program Files (x86)\\FileZilla FTP Client\\filezilla.exe",
            "C:\\Users\\%USERNAME%\\AppData\\Local\\Programs\\FileZilla FTP Client\\filezilla.exe",
        ]));
    r.push(AppDescriptor::new("Notepad++", "Developer Tools", "notepadplusplus",
        vec![
            "SOFTWARE\\Notepad++",
        ],
        vec![
            "C:\\Program Files\\Notepad++\\notepad++.exe",
            "C:\\Program Files (x86)\\Notepad++\\notepad++.exe",
            "C:\\Users\\%USERNAME%\\AppData\\Local\\Programs\\Notepad++\\notepad++.exe",
        ]));
    r.push(AppDescriptor::new("WinSCP", "Developer Tools", "winscp",
        vec![
            "SOFTWARE\\Microsoft\\Windows\\CurrentVersion\\Uninstall\\winscp3_is1",
            "SOFTWARE\\WOW6432Node\\Microsoft\\Windows\\CurrentVersion\\Uninstall\\winscp3_is1",
            "SOFTWARE\\Microsoft\\Windows\\CurrentVersion\\App Paths\\WinSCP.exe",
        ],
        vec![
            "C:\\Program Files\\WinSCP\\WinSCP.exe",
            "C:\\Program Files (x86)\\WinSCP\\WinSCP.exe",
            "C:\\Users\\%USERNAME%\\AppData\\Local\\Programs\\WinSCP\\WinSCP.exe",
        ]));
    r.push(AppDescriptor::new("PuTTY", "Developer Tools", "putty",
        vec![
            "SOFTWARE\\SimonTatham\\PuTTY",
        ],
        vec![
            "C:\\Program Files\\PuTTY\\putty.exe",
            "C:\\Program Files (x86)\\PuTTY\\putty.exe",
            "C:\\Users\\%USERNAME%\\AppData\\Local\\Programs\\PuTTY\\putty.exe",
        ]));
    r.push(AppDescriptor::new("Visual Studio Code", "Developer Tools", "vscode",
        vec![
            "SOFTWARE\\Microsoft\\Windows\\CurrentVersion\\Uninstall\\{771FD6B0-FA20-440A-A002-3B3BAC16DC50}_is1",
            "SOFTWARE\\Microsoft\\Windows\\CurrentVersion\\Uninstall\\VSCode",
            "SOFTWARE\\Classes\\Applications\\Code.exe",
        ],
        vec![
            "C:\\Program Files\\Microsoft VS Code\\Code.exe",
            "C:\\Program Files (x86)\\Microsoft VS Code\\Code.exe",
            "C:\\Users\\%USERNAME%\\AppData\\Local\\Programs\\Microsoft VS Code\\Code.exe",
        ]));
    r.push(AppDescriptor::new("Evernote", "Other", "evernote",
        vec![
            "SOFTWARE\\Microsoft\\Windows\\CurrentVersion\\App Paths\\Evernote.exe",
        ],
        vec![
            "C:\\Program Files\\Evernote\\Evernote.exe",
            "C:\\Program Files (x86)\\Evernote\\Evernote.exe",
        ]));
    r.push(AppDescriptor::new("Google Earth", "Other", "googleearth",
        vec![
            "SOFTWARE\\Google\\Google Earth Pro",
            "SOFTWARE\\Microsoft\\Windows\\CurrentVersion\\App Paths\\googleearth.exe",
        ],
        vec![
            "C:\\Program Files\\Google\\Google Earth Pro\\client\\googleearth.exe",
            "C:\\Program Files (x86)\\Google\\Google Earth Pro\\client\\googleearth.exe",
        ]));
    r.push(AppDescriptor::new("7-Zip", "Compression", "7zip",
        vec![
            "SOFTWARE\\7-Zip",
        ],
        vec![
            "C:\\Program Files\\7-Zip\\7z.exe",
            "C:\\Program Files (x86)\\7-Zip\\7z.exe",
        ]));
    r.push(AppDescriptor::new("WinRAR", "Compression", "winrar",
        vec![
            "SOFTWARE\\WinRAR",
        ],
        vec![
            "C:\\Program Files\\WinRAR\\WinRAR.exe",
            "C:\\Program Files (x86)\\WinRAR\\WinRAR.exe",
        ]));
    r.push(AppDescriptor::new("qBittorrent", "File Sharing", "qbittorrent",
        vec![
            "SOFTWARE\\qBittorrent",
        ],
        vec![
            "C:\\Program Files\\qBittorrent\\qbittorrent.exe",
            "C:\\Program Files (x86)\\qBittorrent\\qbittorrent.exe",
            "C:\\Users\\%USERNAME%\\AppData\\Local\\Programs\\qBittorrent\\qbittorrent.exe",
        ]));
    r
}

} // verus!
