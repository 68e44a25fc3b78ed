#version 460

// One vertex of a body or of the floor: its position in world space, its
// normal and its colour. The scene is drawn in orthographic projection onto
// the x-y plane; y is flipped to match Vulkan's downward y axis.
layout(location = 0) in vec3 position;
layout(location = 1) in vec3 normal;
layout(location = 2) in vec4 color;

layout(location = 0) out vec4 color_out;
layout(location = 1) out vec3 normal_out;

void main() {
    color_out = color;
    normal_out = normal;
    gl_Position = vec4(position.x, -position.y, 0.5 + 0.25 * position.z, 1.0);
}
