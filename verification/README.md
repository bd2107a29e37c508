# bevy_iced

Hosting [Iced](https://github.com/iced-rs/iced) user interfaces inside a
[Bevy](https://github.com/bevyengine/bevy) application, with the
integration's logic verified by Verus.

- `src/` is the verified library:
  - `input`: turning one frame of window input (cursor moves, entries
    and exits, mouse buttons, keys, typed characters) into ordered
    user-interface events, and tracking of the cursor position;
  - `user_interface`: the layout cache kept between frames, building and
    tearing down an application's interface, applying messages;
  - `systems`: starting an application from its flags and running one
    application's interface for one frame;
  - `messages`: the channel through which messages from tasks reach the
    application;
  - `application`: the trait an Iced program implements to be hosted.
- `app/` holds what only the engine side can do: the Bevy plugin, components
  and bundles, the render-graph node that presents on the GPU, the systems
  that read and write the ECS world, and the floating-point size and cursor
  conversions.
- `tests/` exercises the library, with Iced's null renderer standing in for
  the GPU renderer.

`Cargo.toml` lists `async-trait` although nothing calls it: it is there so
that `syn` 1 is built with its `full` feature on the macro side, which the
derive crates of `bevy` 0.7 need and which nothing else in this dependency
tree turns on.
