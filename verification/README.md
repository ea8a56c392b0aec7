# Feather

Core logic of the Feather browser shell, written in Verus and proved
against its contracts.

- `src/text.rs`: white space, trimming and space replacement on characters.
- `src/address_bar.rs`: the address bar and what typed input resolves to,
  with the laws that resolution is idempotent and always yields a web address.
- `src/toolbar_ui.rs`: `resolve_input`, the toolbar state and the event each
  frame of the toolbar produces.
- `src/tabs.rs`: tab states and tabs.
- `src/tab_store.rs`: the store of open tabs (open, close, activate, update,
  listings and totals); `src/store_laws.rs` holds the laws that span its
  operations.
- `src/ipc.rs`: the action for each message the page toolbar posts.
- `src/platform.rs`: UTF-16 encoding for Win32 calls.
- `app/`: the window, web view, egui toolbar drawing and Win32 toolbar.
