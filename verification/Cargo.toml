[package]
name = "win_sys"
version = "0.1.0"
edition = "2021"
publish = false

[dependencies]
thiserror = "2"
tracing = "0.1"

[dependencies.windows]
version = "0.61"
features = [
    "Win32_Foundation",
    "Win32_Security",
    "Win32_Security_Authorization",
    "Win32_Security_WinTrust",
    "Win32_Security_Cryptography",
    "Win32_System_Registry",
    "Win32_System_EventLog",
    "Win32_System_SystemInformation",
    "Win32_System_Diagnostics_Etw",
    "Win32_System_Performance",
    "Win32_System_Memory",
    "Win32_System_Threading",
    "Win32_System_LibraryLoader",
    "Win32_System_Com",
    "Win32_System_Wmi",
    "Win32_System_Variant",
    "Win32_System_Ole",
    "Win32_System_TaskScheduler",
    "Win32_System_Services",
    "Win32_System_RestartManager",
    "Win32_System_Power",
    "Win32_System_IO",
    "Win32_System_Time",
    "Win32_System_ApplicationInstallationAndServicing",
    "Win32_Storage_FileSystem",
    "Win32_Storage_Packaging_Appx",
    "Win32_Devices_DeviceAndDriverInstallation",
    "Win32_Devices_Properties",
    "Win32_NetworkManagement_IpHelper",
    "Win32_NetworkManagement_Ndis",
    "Win32_NetworkManagement_NetManagement",
    "Win32_NetworkManagement_WiFi",
    "Win32_Networking_WinSock",
    "Win32_Networking_WinHttp",
    "Win32_Graphics_Gdi",
    "Win32_Graphics_Imaging",
    "Win32_UI_Shell",
    "Win32_UI_Shell_Common",
    "Win32_UI_WindowsAndMessaging",
    "Foundation",
    "Foundation_Collections",
    "ApplicationModel",
    "Management_Deployment",
]
