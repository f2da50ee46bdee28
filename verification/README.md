# Notification Forwarder

Reads the banners that macOS Notification Center shows, and posts each new
notification to a webhook.

```text
accessibility event -> scan -> parse -> filter -> deduplicate -> queue -> post
```

- `src/` is the library. It holds every rule of the program: what a banner says
  and which application it comes from, what is filtered, what counts as a
  duplicate, which headers are valid, when a request is tried again, which
  process is Notification Center, when to scan, and what the window, the menu
  and the commands show. Each function states what it does in a contract that
  Verus proves, and what holds across functions stands in proof functions whose
  names begin with `law_`.
- `app/` is the program around it: command line, files, accessibility calls,
  HTTP, and the window. The window and the accessibility calls need macOS.
- `tests/` runs the library on concrete values.

What is believed without proof is small: the behaviour of a few functions of
`std`, `chrono`, `sha2` and the header types of `reqwest`. Each stands in a
function or declaration of its own, marked `external_body` or
`assume_specification`, with a comment that says what is believed of it.

## Privacy

Bodies of notifications are neither logged nor written to the console of the
window. Header values are never logged, and URLs are logged with their secrets redacted. The
configuration file is readable by its owner alone.
