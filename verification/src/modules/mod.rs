pub mod battery;
pub mod cpu;
pub mod datetime;
pub mod desktop;
pub mod displays;
pub mod editor;
pub mod gpu;
pub mod host;
pub mod hostname;
pub mod icon_theme;
pub mod initsys;
pub mod locale;
pub mod localip;
pub mod memory;
pub mod mounts;
pub mod music;
pub mod os;
pub mod packages;
pub mod player;
pub mod processes;
pub mod shell;
pub mod swap;
pub mod terminal;
pub mod theme;
pub mod uptime;
