# x_gettsu

A downloader for the videos and photos attached to posts on X (Twitter), with
its rules verified in Verus.

- `src/` is the verified library: recognising post URLs (`status_url`),
  choosing the best media and building the download list (`media`), file
  names (`filename`), restoring the window placement on the current monitors
  (`window_state`), the clipboard watch (`clipboard`), download progress
  (`download`), settings (`settings`) and the native look (`appearance`),
  over character helpers in `text`.
- `app/` is the desktop program around it: the Tauri window, HTTP requests,
  the clipboard, the OS registry, files, and the floating-point conversion of
  window sizes between monitor scale factors.
- `tests/` runs the library on concrete cases.
