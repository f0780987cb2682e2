# bypaxdpi

The verified core of BypaxDPI, a Windows helper that runs a local DPI-bypass
proxy, shares it on the LAN through a proxy auto-config (PAC) server, and
switches the system proxy on and off.

- `src/` is the library, verified with Verus:
  - `text`: decimal rendering, Unicode white space, trimming, searching;
  - `unicode`: the standard library's case mapping and UTF-8 decoding;
  - `pac`: the PAC scripts, the PAC address and the setup page;
  - `http`: what a request to the PAC server asks for, and the response;
  - `server`: the state of the PAC server across start, stop and exit;
  - `netif`: the choice of the LAN address among the network adapters;
  - `sysproxy`: the registry procedures that set and clear the proxy;
  - `system`: the sidecar's address and port, and the administrator and
    cleanup reports;
  - `tray`: the tray menu and click decisions.
- `app/` is the Tauri application: sockets, threads, processes, the Windows
  notification and the tray itself. It performs what the library decides.
- `tests/` runs the library on concrete values.
